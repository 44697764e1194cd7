//! Instance configurations, their validation against the runtime limits,
//! and the summaries reported for an instance.
use vstd::prelude::*;
use vstd::string::StrSliceExecFns;

use crate::model::error::{
    DetailValue, DetailView, DomainError, ErrorCategory, ErrorCode, LastErrorSummary,
};
use crate::model::ids::{HandleId, Timestamp};
use crate::model::limits::{RuntimeLimits, host_details, range_error, range_exceeded};
use crate::model::state::{InstanceState, InstanceType, instance_type_name};
use crate::util::decimal::{decimal, push_padded_decimal};
use crate::util::text::{concat, str_trim, trim};

verus! {

#[derive(Debug, Clone, Copy, PartialEq, Eq, Structural)]
pub enum DataBits {
    Seven,
    Eight,
}

#[derive(Debug, Clone, Copy, PartialEq, Eq, Structural)]
pub enum StopBits {
    One,
    Two,
}

/// Parity; `Disabled` is serialised as `None`.
#[derive(Debug, Clone, Copy, PartialEq, Eq, Structural)]
pub enum Parity {
    Disabled,
    Odd,
    Even,
}

/// Flow control; `Disabled` is serialised as `None`.
#[derive(Debug, Clone, Copy, PartialEq, Eq, Structural)]
pub enum FlowControl {
    Disabled,
    Software,
    Hardware,
}

/// How a payload is written by the caller and previewed back.
#[derive(Debug, Clone, Copy, PartialEq, Eq, Structural)]
pub enum PayloadEncoding {
    Text,
    Hex,
}

#[derive(Debug, Clone, Copy, PartialEq, Eq, Structural)]
pub enum TcpMode {
    Client,
    Listen,
}

/// One connected peer of a listening instance.
#[derive(Debug, Clone)]
pub struct PeerSummary {
    pub peer_id: String,
    pub remote_addr: String,
}

/// What an instance is bound to, for display.
#[derive(Debug, Clone)]
pub struct ResourceSummary {
    pub kind: String,
    pub display: String,
    pub resource_class: Option<String>,
}

/// `host:port`.
pub open spec fn host_port_text(host: Seq<char>, port: nat) -> Seq<char> {
    host + ":"@ + decimal(port)
}

fn host_port(host: &str, port: u16) -> (s: String)
    ensures
        s@ == host_port_text(host@, port as nat),
{
    let mut s = concat(host, ":");
    push_padded_decimal(&mut s, port as u64, 0);
    s
}

/// The display of a UDP binding: `bind`, then ` -> remote` when both the
/// remote host and port are known.
pub open spec fn udp_display(
    bind_host: Seq<char>,
    bind_port: nat,
    remote_host: Option<Seq<char>>,
    remote_port: Option<nat>,
) -> Seq<char> {
    match (remote_host, remote_port) {
        (Some(h), Some(p)) => host_port_text(bind_host, bind_port) + " -> "@ + host_port_text(h, p),
        _ => host_port_text(bind_host, bind_port),
    }
}

pub open spec fn opt_str(o: Option<&str>) -> Option<Seq<char>> {
    match o {
        Some(s) => Some(s@),
        None => None,
    }
}

pub open spec fn opt_string(o: Option<String>) -> Option<Seq<char>> {
    match o {
        Some(s) => Some(s@),
        None => None,
    }
}

pub open spec fn opt_port(o: Option<u16>) -> Option<nat> {
    match o {
        Some(p) => Some(p as nat),
        None => None,
    }
}

impl ResourceSummary {
    pub fn serial(port: &str) -> (r: Self)
        ensures
            r.kind@ == "serial"@,
            r.display@ == port@,
            r.resource_class is None,
    {
        ResourceSummary { kind: "serial".to_owned(), display: port.to_owned(), resource_class: None }
    }

    /// A TCP client resource.
    pub fn tcp(host: &str, port: u16) -> (r: Self)
        ensures
            r.kind@ == "tcp-client"@,
            r.display@ == host_port_text(host@, port as nat),
            r.resource_class is None,
    {
        Self::tcp_client(host, port)
    }

    pub fn tcp_client(host: &str, port: u16) -> (r: Self)
        ensures
            r.kind@ == "tcp-client"@,
            r.display@ == host_port_text(host@, port as nat),
            r.resource_class is None,
    {
        ResourceSummary {
            kind: "tcp-client".to_owned(),
            display: host_port(host, port),
            resource_class: None,
        }
    }

    pub fn tcp_listen(host: &str, port: u16) -> (r: Self)
        ensures
            r.kind@ == "tcp-listen"@,
            r.display@ == host_port_text(host@, port as nat),
            r.resource_class is None,
    {
        ResourceSummary {
            kind: "tcp-listen".to_owned(),
            display: host_port(host, port),
            resource_class: None,
        }
    }

    pub fn udp(
        bind_host: &str,
        bind_port: u16,
        remote_host: Option<&str>,
        remote_port: Option<u16>,
    ) -> (r: Self)
        ensures
            r.kind@ == "udp"@,
            r.display@ == udp_display(
                bind_host@,
                bind_port as nat,
                opt_str(remote_host),
                opt_port(remote_port),
            ),
            r.resource_class is None,
    {
        let mut display = host_port(bind_host, bind_port);
        match (remote_host, remote_port) {
            (Some(h), Some(p)) => {
                display.append(" -> ");
                let remote = host_port(h, p);
                display.append(remote.as_str());
            },
            _ => {},
        }
        ResourceSummary { kind: "udp".to_owned(), display, resource_class: None }
    }

    pub fn visa(resource_address: &str, resource_class: Option<&str>) -> (r: Self)
        ensures
            r.kind@ == "visa"@,
            r.display@ == resource_address@,
            opt_string(r.resource_class) == opt_str(resource_class),
    {
        let class = match resource_class {
            Some(c) => Some(c.to_owned()),
            None => None,
        };
        ResourceSummary { kind: "visa".to_owned(), display: resource_address.to_owned(), resource_class: class }
    }
}

#[derive(Debug, Clone)]
pub struct SerialConfig {
    pub port: String,
    pub baudrate: u32,
    pub data_bits: DataBits,
    pub stop_bits: StopBits,
    pub parity: Parity,
    pub flow_control: FlowControl,
    pub timeout_ms: u64,
    pub encoding: PayloadEncoding,
}

impl SerialConfig {
    /// 115200 baud, 8 data bits, one stop bit, no parity, no flow control,
    /// a one-second timeout and text payloads.
    pub fn new(port: &str) -> (c: Self)
        ensures
            c.port@ == port@,
            c.baudrate == 115200,
            c.data_bits == DataBits::Eight,
            c.stop_bits == StopBits::One,
            c.parity == Parity::Disabled,
            c.flow_control == FlowControl::Disabled,
            c.timeout_ms == 1000,
            c.encoding == PayloadEncoding::Text,
    {
        SerialConfig {
            port: port.to_owned(),
            baudrate: 115200,
            data_bits: DataBits::Eight,
            stop_bits: StopBits::One,
            parity: Parity::Disabled,
            flow_control: FlowControl::Disabled,
            timeout_ms: 1000,
            encoding: PayloadEncoding::Text,
        }
    }

    /// A copy with the same settings.
    pub fn duplicate(&self) -> (c: Self)
        ensures
            c == *self,
    {
        SerialConfig {
            port: self.port.clone(),
            baudrate: self.baudrate,
            data_bits: self.data_bits,
            stop_bits: self.stop_bits,
            parity: self.parity,
            flow_control: self.flow_control,
            timeout_ms: self.timeout_ms,
            encoding: self.encoding,
        }
    }
}

/// `e` refuses `host` for `field` with the code the network check gives.
pub open spec fn host_rejected(l: RuntimeLimits, field: Seq<char>, host: Seq<char>, e: DomainError) -> bool {
    &&& l.network_host_verdict(host) == Some(e.code)
    &&& e.category == ErrorCategory::InvalidArgument
    &&& !e.retryable
    &&& e.details@ == host_details(field, host)
}

/// `value` is outside the I/O timeout range and `e` says so for `field`.
pub open spec fn timeout_rejected(l: RuntimeLimits, field: Seq<char>, value: u64, e: DomainError) -> bool {
    &&& !(1 <= value <= l.io_timeout_max_ms)
    &&& range_error(e, field, 1, l.io_timeout_max_ms as int, value as int)
}

pub open spec fn timeout_ok(l: RuntimeLimits, value: u64) -> bool {
    1 <= value <= l.io_timeout_max_ms
}

#[derive(Debug, Clone)]
pub struct TcpConfig {
    pub mode: TcpMode,
    pub host: String,
    pub port: u16,
    pub timeout_ms: u64,
}

/// The field naming the host of a TCP configuration.
pub open spec fn tcp_host_field(mode: TcpMode) -> Seq<char> {
    match mode {
        TcpMode::Client => "host"@,
        TcpMode::Listen => "bind_host"@,
    }
}

/// Outcome of checking a TCP configuration: the host first, then the timeout.
pub open spec fn tcp_outcome(c: TcpConfig, l: RuntimeLimits, r: Result<(), DomainError>) -> bool {
    if l.network_host_verdict(c.host@) is Some {
        r matches Err(e) && host_rejected(l, tcp_host_field(c.mode), c.host@, e)
    } else if !timeout_ok(l, c.timeout_ms) {
        r matches Err(e) && timeout_rejected(l, "timeout_ms"@, c.timeout_ms, e)
    } else {
        r is Ok
    }
}

impl TcpConfig {
    /// A client configuration with a one-second timeout.
    pub fn client(host: &str, port: u16) -> (c: Self)
        ensures
            c.mode == TcpMode::Client,
            c.host@ == host@,
            c.port == port,
            c.timeout_ms == 1000,
    {
        TcpConfig { mode: TcpMode::Client, host: host.to_owned(), port, timeout_ms: 1000 }
    }

    pub fn validate_remote(&self, limits: &RuntimeLimits) -> (r: Result<(), DomainError>)
        ensures
            tcp_outcome(*self, *limits, r),
    {
        let field = match self.mode {
            TcpMode::Client => "host",
            TcpMode::Listen => "bind_host",
        };
        match limits.validate_network_host(field, self.host.as_str()) {
            Ok(()) => {},
            Err(e) => return Err(e),
        }
        match limits.validate_io_timeout_ms("timeout_ms", self.timeout_ms) {
            Ok(_) => Ok(()),
            Err(e) => Err(e),
        }
    }
}

#[derive(Debug, Clone)]
pub struct UdpConfig {
    pub bind_host: String,
    pub bind_port: u16,
    pub remote_host: Option<String>,
    pub remote_port: Option<u16>,
    pub timeout_ms: u64,
}

/// Outcome of checking a UDP configuration: bind host, remote host, timeout.
pub open spec fn udp_outcome(c: UdpConfig, l: RuntimeLimits, r: Result<(), DomainError>) -> bool {
    if l.network_host_verdict(c.bind_host@) is Some {
        r matches Err(e) && host_rejected(l, "bind_host"@, c.bind_host@, e)
    } else if c.remote_host matches Some(h) && l.network_host_verdict(h@) is Some {
        r matches Err(e) && host_rejected(l, "remote_host"@, c.remote_host.unwrap()@, e)
    } else if !timeout_ok(l, c.timeout_ms) {
        r matches Err(e) && timeout_rejected(l, "timeout_ms"@, c.timeout_ms, e)
    } else {
        r is Ok
    }
}

impl UdpConfig {
    pub fn validate_remote(&self, limits: &RuntimeLimits) -> (r: Result<(), DomainError>)
        ensures
            udp_outcome(*self, *limits, r),
    {
        match limits.validate_network_host("bind_host", self.bind_host.as_str()) {
            Ok(()) => {},
            Err(e) => return Err(e),
        }
        match &self.remote_host {
            Some(h) => match limits.validate_network_host("remote_host", h.as_str()) {
                Ok(()) => {},
                Err(e) => return Err(e),
            },
            None => {},
        }
        match limits.validate_io_timeout_ms("timeout_ms", self.timeout_ms) {
            Ok(_) => Ok(()),
            Err(e) => Err(e),
        }
    }
}

#[derive(Debug, Clone)]
pub struct VisaConfig {
    pub resource_address: String,
    pub open_timeout_ms: u64,
    pub io_timeout_ms: u64,
    pub read_termination: Option<String>,
    pub write_termination: Option<String>,
    pub encoding: PayloadEncoding,
    pub query_idn_on_connect: bool,
}

/// `s` has the separator `::` at `i`.
pub open spec fn sep_at(s: Seq<char>, i: int) -> bool {
    0 <= i && i + 1 < s.len() && s[i] == ':' && s[i + 1] == ':'
}

/// The first `::` of `s` at or after `from`, or -1.
pub open spec fn find_sep(s: Seq<char>, from: int) -> int
    decreases s.len() - from,
{
    if from < 0 || from + 1 >= s.len() {
        -1
    } else if sep_at(s, from) {
        from
    } else {
        find_sep(s, from + 1)
    }
}

/// The text before the first `::` (all of `s` when there is none).
pub open spec fn first_segment(s: Seq<char>) -> Seq<char> {
    if find_sep(s, 0) < 0 {
        s
    } else {
        s.subrange(0, find_sep(s, 0))
    }
}

/// The text after the first `::`, if there is one.
pub open spec fn after_first_sep(s: Seq<char>) -> Option<Seq<char>> {
    if find_sep(s, 0) < 0 {
        None
    } else {
        Some(s.subrange(find_sep(s, 0) + 2, s.len() as int))
    }
}

/// `c` is the ASCII upper-case letter `upper` in either case.
pub open spec fn ascii_ci(c: char, upper: char) -> bool {
    c == upper || c as int == upper as int + 32
}

/// `t` begins with `TCPIP`, ignoring ASCII case.
pub open spec fn starts_with_tcpip(t: Seq<char>) -> bool {
    &&& t.len() >= 5
    &&& ascii_ci(t[0], 'T')
    &&& ascii_ci(t[1], 'C')
    &&& ascii_ci(t[2], 'P')
    &&& ascii_ci(t[3], 'I')
    &&& ascii_ci(t[4], 'P')
}

/// The host named by a VISA resource address: none unless its class is
/// TCPIP; then the trimmed second `::` segment, which must exist and not be
/// blank (`Err` otherwise).
pub open spec fn visa_host(address: Seq<char>) -> Result<Option<Seq<char>>, ()> {
    if !starts_with_tcpip(trim(first_segment(address))) {
        Ok(None)
    } else {
        match after_first_sep(address) {
            None => Err(()),
            Some(rest) => {
                let h = trim(first_segment(rest));
                if h.len() == 0 {
                    Err(())
                } else {
                    Ok(Some(h))
                }
            },
        }
    }
}

/// Outcome of checking a VISA configuration: both timeouts, then the host.
pub open spec fn visa_outcome(c: VisaConfig, l: RuntimeLimits, r: Result<(), DomainError>) -> bool {
    if !timeout_ok(l, c.open_timeout_ms) {
        r matches Err(e) && timeout_rejected(l, "open_timeout_ms"@, c.open_timeout_ms, e)
    } else if !timeout_ok(l, c.io_timeout_ms) {
        r matches Err(e) && timeout_rejected(l, "io_timeout_ms"@, c.io_timeout_ms, e)
    } else {
        match visa_host(c.resource_address@) {
            Err(()) => r matches Err(e) && {
                &&& e.category == ErrorCategory::InvalidArgument
                &&& e.code == ErrorCode::InvalidAddress
                &&& e.details@ == seq![
                    ("field"@, DetailView::Text("resource_address.host"@)),
                    ("resource_address"@, DetailView::Text(c.resource_address@)),
                ]
            },
            Ok(None) => r is Ok,
            Ok(Some(h)) => if l.network_host_verdict(h) is Some {
                r matches Err(e) && host_rejected(l, "resource_address.host"@, h, e)
            } else {
                r is Ok
            },
        }
    }
}

fn find_sep_exec(s: &str, n: usize, from: usize) -> (r: Option<usize>)
    requires
        n == s@.len(),
        from <= n,
    ensures
        match r {
            Some(i) => find_sep(s@, from as int) == i as int && from <= i && i + 1 < n,
            None => find_sep(s@, from as int) == -1,
        },
    decreases n - from,
{
    if n - from < 2 {
        return None;
    }
    if s.get_char(from) == ':' && s.get_char(from + 1) == ':' {
        Some(from)
    } else {
        find_sep_exec(s, n, from + 1)
    }
}

pub fn first_segment_exec(s: &str) -> (r: &str)
    ensures
        r@ == first_segment(s@),
{
    let n = s.unicode_len();
    match find_sep_exec(s, n, 0) {
        Some(i) => s.substring_char(0, i),
        None => s,
    }
}

fn ascii_ci_exec(c: char, upper: char) -> (b: bool)
    requires
        'A' <= upper <= 'Z',
    ensures
        b == ascii_ci(c, upper),
{
    c == upper || (c as u32) == (upper as u32) + 32
}

fn visa_tcpip_host(resource_address: &str) -> (r: Result<Option<&str>, DomainError>)
    ensures
        match r {
            Ok(Some(h)) => visa_host(resource_address@) == Ok::<Option<Seq<char>>, ()>(Some(h@)),
            Ok(None) => visa_host(resource_address@) == Ok::<Option<Seq<char>>, ()>(None),
            Err(e) => {
                &&& visa_host(resource_address@) is Err
                &&& e.category == ErrorCategory::InvalidArgument
                &&& e.code == ErrorCode::InvalidAddress
                &&& e.details@ == seq![
                    ("field"@, DetailView::Text("resource_address.host"@)),
                    ("resource_address"@, DetailView::Text(resource_address@)),
                ]
            },
        },
{
    let class = str_trim(first_segment_exec(resource_address));
    let cn = class.unicode_len();
    let is_tcpip = cn >= 5 && ascii_ci_exec(class.get_char(0), 'T') && ascii_ci_exec(
        class.get_char(1),
        'C',
    ) && ascii_ci_exec(class.get_char(2), 'P') && ascii_ci_exec(class.get_char(3), 'I')
        && ascii_ci_exec(class.get_char(4), 'P');
    if !is_tcpip {
        return Ok(None);
    }
    let n = resource_address.unicode_len();
    let host = match find_sep_exec(resource_address, n, 0) {
        Some(i) => {
            let rest = resource_address.substring_char(i + 2, n);
            Some(str_trim(first_segment_exec(rest)))
        },
        None => None,
    };
    match host {
        Some(h) => {
            if h.unicode_len() > 0 {
                return Ok(Some(h));
            }
        },
        None => {},
    }
    let e = DomainError::invalid_argument(
        ErrorCode::InvalidAddress,
        "VISA TCPIP resource address is missing a host.",
        "Use a valid TCPIP resource address such as TCPIP0::127.0.0.1::INSTR.",
    ).with_detail("field", DetailValue::Text("resource_address.host".to_owned())).with_detail(
        "resource_address",
        DetailValue::Text(resource_address.to_owned()),
    );
    assert(e.details@ =~= seq![
        ("field"@, DetailView::Text("resource_address.host"@)),
        ("resource_address"@, DetailView::Text(resource_address@)),
    ]);
    Err(e)
}

impl VisaConfig {
    /// One-second open and I/O timeouts, no terminations, text payloads,
    /// and no identification query on connect.
    pub fn new(resource_address: &str) -> (c: Self)
        ensures
            c.resource_address@ == resource_address@,
            c.open_timeout_ms == 1000,
            c.io_timeout_ms == 1000,
            c.read_termination is None,
            c.write_termination is None,
            c.encoding == PayloadEncoding::Text,
            !c.query_idn_on_connect,
    {
        VisaConfig {
            resource_address: resource_address.to_owned(),
            open_timeout_ms: 1000,
            io_timeout_ms: 1000,
            read_termination: None,
            write_termination: None,
            encoding: PayloadEncoding::Text,
            query_idn_on_connect: false,
        }
    }

    pub fn validate(&self, limits: &RuntimeLimits) -> (r: Result<(), DomainError>)
        ensures
            visa_outcome(*self, *limits, r),
    {
        match limits.validate_io_timeout_ms("open_timeout_ms", self.open_timeout_ms) {
            Ok(_) => {},
            Err(e) => return Err(e),
        }
        match limits.validate_io_timeout_ms("io_timeout_ms", self.io_timeout_ms) {
            Ok(_) => {},
            Err(e) => return Err(e),
        }
        match visa_tcpip_host(self.resource_address.as_str()) {
            Ok(Some(host)) => limits.validate_network_host("resource_address.host", host),
            Ok(None) => Ok(()),
            Err(e) => Err(e),
        }
    }
}

/// The configuration an instance holds, tagged by kind.
#[derive(Debug, Clone)]
pub enum ConfigSnapshot {
    Serial(SerialConfig),
    Tcp(TcpConfig),
    Udp(UdpConfig),
    Visa(VisaConfig),
}

/// Traffic counters of an instance.
#[derive(Debug, Clone)]
pub struct InstanceStats {
    pub tx_bytes: u64,
    pub rx_bytes: u64,
    pub rx_buffer_bytes: usize,
    pub rx_dropped_bytes: u64,
    pub tx_queue_items: usize,
    pub subscriber_count: usize,
    pub dropped_notifications: u64,
    pub last_activity_at: Option<Timestamp>,
}

/// All counters zero and no activity yet.
pub open spec fn is_zero_stats(s: InstanceStats) -> bool {
    &&& s.tx_bytes == 0
    &&& s.rx_bytes == 0
    &&& s.rx_buffer_bytes == 0
    &&& s.rx_dropped_bytes == 0
    &&& s.tx_queue_items == 0
    &&& s.subscriber_count == 0
    &&& s.dropped_notifications == 0
    &&& s.last_activity_at is None
}

impl InstanceStats {
    /// A copy with the same counters.
    pub fn duplicate(&self) -> (s: Self)
        ensures
            s == *self,
    {
        InstanceStats {
            tx_bytes: self.tx_bytes,
            rx_bytes: self.rx_bytes,
            rx_buffer_bytes: self.rx_buffer_bytes,
            rx_dropped_bytes: self.rx_dropped_bytes,
            tx_queue_items: self.tx_queue_items,
            subscriber_count: self.subscriber_count,
            dropped_notifications: self.dropped_notifications,
            last_activity_at: match &self.last_activity_at {
                Some(t) => Some(t.duplicate()),
                None => None,
            },
        }
    }
}

fn duplicate_opt_string(o: &Option<String>) -> (r: Option<String>)
    ensures
        r == *o,
{
    match o {
        Some(s) => Some(s.clone()),
        None => None,
    }
}

impl ConfigSnapshot {
    /// A copy with the same settings.
    pub fn duplicate(&self) -> (c: Self)
        ensures
            c == *self,
    {
        match self {
            ConfigSnapshot::Serial(c) => ConfigSnapshot::Serial(
                SerialConfig {
                    port: c.port.clone(),
                    baudrate: c.baudrate,
                    data_bits: c.data_bits,
                    stop_bits: c.stop_bits,
                    parity: c.parity,
                    flow_control: c.flow_control,
                    timeout_ms: c.timeout_ms,
                    encoding: c.encoding,
                },
            ),
            ConfigSnapshot::Tcp(c) => ConfigSnapshot::Tcp(
                TcpConfig { mode: c.mode, host: c.host.clone(), port: c.port, timeout_ms: c.timeout_ms },
            ),
            ConfigSnapshot::Udp(c) => ConfigSnapshot::Udp(
                UdpConfig {
                    bind_host: c.bind_host.clone(),
                    bind_port: c.bind_port,
                    remote_host: duplicate_opt_string(&c.remote_host),
                    remote_port: c.remote_port,
                    timeout_ms: c.timeout_ms,
                },
            ),
            ConfigSnapshot::Visa(c) => ConfigSnapshot::Visa(
                VisaConfig {
                    resource_address: c.resource_address.clone(),
                    open_timeout_ms: c.open_timeout_ms,
                    io_timeout_ms: c.io_timeout_ms,
                    read_termination: duplicate_opt_string(&c.read_termination),
                    write_termination: duplicate_opt_string(&c.write_termination),
                    encoding: c.encoding,
                    query_idn_on_connect: c.query_idn_on_connect,
                },
            ),
        }
    }
}

impl Default for InstanceStats {
    fn default() -> (s: Self)
        ensures
            is_zero_stats(s),
    {
        InstanceStats {
            tx_bytes: 0,
            rx_bytes: 0,
            rx_buffer_bytes: 0,
            rx_dropped_bytes: 0,
            tx_queue_items: 0,
            subscriber_count: 0,
            dropped_notifications: 0,
            last_activity_at: None,
        }
    }
}

/// What the tools report about an instance.
#[derive(Debug, Clone)]
pub struct InstanceSummary {
    pub handle_id: HandleId,
    pub instance_type: InstanceType,
    pub state: InstanceState,
    pub resource: Option<ResourceSummary>,
    pub config: Option<ConfigSnapshot>,
    pub stats: InstanceStats,
    pub peers: Option<Vec<PeerSummary>>,
    pub last_error: Option<LastErrorSummary>,
}

/// The value of a required field, or the error naming it.
pub fn validate_required_field(field: &str, value: Option<&str>) -> (r: Result<String, DomainError>)
    ensures
        match r {
            Ok(s) => opt_str(value) == Some(s@),
            Err(e) => {
                &&& value is None
                &&& e.category == ErrorCategory::InvalidArgument
                &&& e.code == ErrorCode::MissingRequiredField
                &&& e.message@ == "Missing required field `"@ + field@ + "`."@
                &&& e.details@ == seq![("field"@, DetailView::Text(field@))]
            },
        },
{
    match value {
        Some(v) => Ok(v.to_owned()),
        None => {
            let mut message = concat("Missing required field `", field);
            message.append("`.");
            let mut hint = concat("Provide `", field);
            hint.append("` and retry.");
            let e = DomainError::invalid_argument(
                ErrorCode::MissingRequiredField,
                message.as_str(),
                hint.as_str(),
            ).with_detail("field", DetailValue::Text(field.to_owned()));
            assert(e.details@ =~= seq![("field"@, DetailView::Text(field@))]);
            Err(e)
        },
    }
}

/// A port number that fits TCP and UDP.
pub fn validate_tcp_port(port: u32) -> (r: Result<u16, DomainError>)
    ensures
        match r {
            Ok(p) => port <= 65535 && p == port,
            Err(e) => port > 65535 && range_error(e, "port"@, 0, 65535, port as int),
        },
{
    if port <= 65535 {
        Ok(port as u16)
    } else {
        Err(
            range_exceeded(
                "TCP/UDP port is outside 0..65535.",
                "Use a valid TCP/UDP port.",
                "port",
                0,
                65535,
                port as u64,
            ),
        )
    }
}

/// Accepts only an instance of the expected type.
pub fn validate_instance_type(actual: InstanceType, expected: InstanceType) -> (r: Result<(), DomainError>)
    ensures
        match r {
            Ok(()) => actual == expected,
            Err(e) => {
                &&& actual != expected
                &&& e.category == ErrorCategory::InvalidArgument
                &&& e.code == ErrorCode::TypeMismatch
                &&& !e.retryable
                &&& e.details@ == seq![
                    ("expected_type"@, DetailView::Text(instance_type_name(expected))),
                    ("actual_type"@, DetailView::Text(instance_type_name(actual))),
                ]
            },
        },
{
    if actual == expected {
        Ok(())
    } else {
        let e = DomainError::invalid_argument(
            ErrorCode::TypeMismatch,
            "Instance type does not match this tool.",
            "Use the configuration tool that matches the instance type.",
        ).with_detail("expected_type", DetailValue::Text(expected.name().to_owned())).with_detail(
            "actual_type",
            DetailValue::Text(actual.name().to_owned()),
        );
        assert(e.details@ =~= seq![
            ("expected_type"@, DetailView::Text(instance_type_name(expected))),
            ("actual_type"@, DetailView::Text(instance_type_name(actual))),
        ]);
        Err(e)
    }
}

} // verus!
