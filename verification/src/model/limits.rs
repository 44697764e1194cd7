//! Runtime limits and the range and network-boundary checks built on them.
use vstd::prelude::*;
use vstd::string::StringSliceAdditionalSpecFns;
use vstd::utf8::encode_utf8;

use crate::model::error::{DetailValue, DetailView, DomainError, ErrorCategory, ErrorCode};
use crate::util::ipaddr::{groups_view, octets_view, IpAddress, IpModel, is_dangerous_ip, is_loopback_ip, parse_ip, parse_ip_exec};
use crate::util::text::{concat, str_eq, str_trim, trim};

verus! {

/// Hard ceiling on buffered bytes across the whole service.
pub const ABS_MAX_TOTAL_BUFFER_BYTES: usize = 536870912;

/// Hard ceiling on queued bytes across the whole service.
pub const ABS_MAX_TOTAL_QUEUED_BYTES: usize = 268435456;

/// Input ceiling of the encoding and protocol helper tools.
pub const HELPER_MAX_INPUT_BYTES: usize = 65536;

/// Every bound the runtime enforces.
#[derive(Debug, Clone)]
pub struct RuntimeLimits {
    pub tx_queue_max_items: usize,
    pub tx_frame_max_bytes: usize,
    pub rx_buffer_max_bytes: usize,
    pub pull_default_max_bytes: usize,
    pub pull_max_bytes: usize,
    pub subscriber_queue_max_items: usize,
    pub subscriber_payload_max_bytes: usize,
    pub subscriber_notifications_per_sec: u32,
    pub instance_notifications_per_sec: u32,
    pub global_notifications_per_sec: u32,
    pub notification_burst: u32,
    pub scan_max_concurrency: usize,
    pub scan_max_ports: usize,
    pub scan_total_timeout_ms: u64,
    pub io_timeout_max_ms: u64,
    pub max_instances: usize,
    pub max_subscribers_per_instance: usize,
    pub max_total_buffer_bytes: usize,
    pub max_total_queued_bytes: usize,
    pub force_close_deadline_ms: u64,
    pub scan_allowed_hosts: Vec<String>,
    pub allow_non_loopback_network: bool,
    pub network_allowed_hosts: Vec<String>,
}

/// The documented default limits.
pub open spec fn is_default_limits(l: RuntimeLimits) -> bool {
    &&& l.tx_queue_max_items == 256
    &&& l.tx_frame_max_bytes == 65536
    &&& l.rx_buffer_max_bytes == 1048576
    &&& l.pull_default_max_bytes == 4096
    &&& l.pull_max_bytes == 65536
    &&& l.subscriber_queue_max_items == 128
    &&& l.subscriber_payload_max_bytes == 16384
    &&& l.subscriber_notifications_per_sec == 64
    &&& l.instance_notifications_per_sec == 256
    &&& l.global_notifications_per_sec == 1024
    &&& l.notification_burst == 128
    &&& l.scan_max_concurrency == 64
    &&& l.scan_max_ports == 256
    &&& l.scan_total_timeout_ms == 10000
    &&& l.io_timeout_max_ms == 30000
    &&& l.max_instances == 64
    &&& l.max_subscribers_per_instance == 32
    &&& l.max_total_buffer_bytes == 134217728
    &&& l.max_total_queued_bytes == 67108864
    &&& l.force_close_deadline_ms == 5000
    &&& l.scan_allowed_hosts@.map_values(|h: String| h@) == seq!["127.0.0.0/8"@, "::1"@]
    &&& !l.allow_non_loopback_network
    &&& l.network_allowed_hosts@.len() == 0
}

impl Default for RuntimeLimits {
    fn default() -> (l: Self)
        ensures
            is_default_limits(l),
    {
        let l = RuntimeLimits {
            tx_queue_max_items: 256,
            tx_frame_max_bytes: 65536,
            rx_buffer_max_bytes: 1048576,
            pull_default_max_bytes: 4096,
            pull_max_bytes: 65536,
            subscriber_queue_max_items: 128,
            subscriber_payload_max_bytes: 16384,
            subscriber_notifications_per_sec: 64,
            instance_notifications_per_sec: 256,
            global_notifications_per_sec: 1024,
            notification_burst: 128,
            scan_max_concurrency: 64,
            scan_max_ports: 256,
            scan_total_timeout_ms: 10000,
            io_timeout_max_ms: 30000,
            max_instances: 64,
            max_subscribers_per_instance: 32,
            max_total_buffer_bytes: 134217728,
            max_total_queued_bytes: 67108864,
            force_close_deadline_ms: 5000,
            scan_allowed_hosts: vec!["127.0.0.0/8".to_owned(), "::1".to_owned()],
            allow_non_loopback_network: false,
            network_allowed_hosts: Vec::new(),
        };
        assert(l.scan_allowed_hosts@.map_values(|h: String| h@) =~= seq![
            "127.0.0.0/8"@,
            "::1"@,
        ]);
        l
    }
}

/// Details of a range error: the field, the bounds and the value given.
pub open spec fn range_details(field: Seq<char>, min: int, max: int, actual: int) -> Seq<
    (Seq<char>, DetailView),
> {
    seq![
        ("field"@, DetailView::Text(field)),
        ("min"@, DetailView::Number(min)),
        ("max"@, DetailView::Number(max)),
        ("actual"@, DetailView::Number(actual)),
    ]
}

/// `e` is the invalid-range error for `field` outside `min..=max`.
pub open spec fn range_error(e: DomainError, field: Seq<char>, min: int, max: int, actual: int) -> bool {
    &&& e.category == ErrorCategory::InvalidArgument
    &&& e.code == ErrorCode::InvalidRange
    &&& !e.retryable
    &&& e.details@ == range_details(field, min, max, actual)
}

/// `e` is a budget error with `code`, naming the limit and the request.
pub open spec fn budget_error(
    e: DomainError,
    code: ErrorCode,
    retryable: bool,
    limit: int,
    requested: int,
) -> bool {
    &&& e.category == ErrorCategory::BufferLimitExceeded
    &&& e.code == code
    &&& e.retryable == retryable
    &&& e.details@ == seq![
        ("limit"@, DetailView::Number(limit)),
        ("requested"@, DetailView::Number(requested)),
    ]
}

/// The address a host string spells once trimmed, if any.
pub open spec fn host_ip(host: Seq<char>) -> Option<IpModel> {
    parse_ip(encode_utf8(trim(host)))
}

/// Details naming the offending field and host.
pub open spec fn host_details(field: Seq<char>, host: Seq<char>) -> Seq<(Seq<char>, DetailView)> {
    seq![("field"@, DetailView::Text(field)), ("host"@, DetailView::Text(host))]
}

/// The range error for `field`, with its bounds and the value given.
pub fn range_exceeded(
    message: &str,
    hint: &str,
    field: &str,
    min: u64,
    max: u64,
    actual: u64,
) -> (e: DomainError)
    ensures
        range_error(e, field@, min as int, max as int, actual as int),
        e.message@ == message@,
        e.recovery_hint@ == hint@,
{
    let e = DomainError::invalid_argument(ErrorCode::InvalidRange, message, hint).with_detail(
        "field",
        DetailValue::Text(field.to_owned()),
    ).with_detail("min", DetailValue::Number(min)).with_detail(
        "max",
        DetailValue::Number(max),
    ).with_detail("actual", DetailValue::Number(actual));
    assert(e.details@ =~= range_details(field@, min as int, max as int, actual as int));
    e
}

/// A budget error with `code`, naming the limit and the request.
pub fn budget_exceeded(
    code: ErrorCode,
    message: &str,
    hint: &str,
    retryable: bool,
    limit: usize,
    requested: usize,
) -> (e: DomainError)
    ensures
        budget_error(e, code, retryable, limit as int, requested as int),
        e.message@ == message@,
        e.recovery_hint@ == hint@,
{
    let e = DomainError::new(ErrorCategory::BufferLimitExceeded, code, message, hint, retryable)
        .with_detail("limit", DetailValue::Number(limit as u64)).with_detail(
        "requested",
        DetailValue::Number(requested as u64),
    );
    assert(e.details@ =~= seq![
        ("limit"@, DetailView::Number(limit as int)),
        ("requested"@, DetailView::Number(requested as int)),
    ]);
    e
}

fn host_error(code: ErrorCode, message: &str, field: &str, host: &str) -> (e: DomainError)
    ensures
        e.category == ErrorCategory::InvalidArgument,
        e.code == code,
        !e.retryable,
        e.details@ == host_details(field@, host@),
        e.message@ == message@,
        e.recovery_hint@ == "Use a loopback IP address or configure an explicit allowlist entry."@,
{
    let e = DomainError::invalid_argument(
        code,
        message,
        "Use a loopback IP address or configure an explicit allowlist entry.",
    ).with_detail("field", DetailValue::Text(field.to_owned())).with_detail(
        "host",
        DetailValue::Text(host.to_owned()),
    );
    assert(e.details@ =~= host_details(field@, host@));
    e
}

fn ip_is_loopback(ip: &IpAddress) -> (r: bool)
    requires
        ip.wf(),
    ensures
        r == is_loopback_ip(ip@),
{
    match ip {
        IpAddress::V4(o) => {
            proof {
                assert(octets_view(o@)[0] == o@[0] as int);
            }
            o[0] == 127
        },
        IpAddress::V6(g) => {
            let yes = g[0] == 0 && g[1] == 0 && g[2] == 0 && g[3] == 0 && g[4] == 0 && g[5] == 0
                && g[6] == 0 && g[7] == 1;
            proof {
                let v = groups_view(g@);
                assert(v[0] == g@[0] as int && v[1] == g@[1] as int && v[2] == g@[2] as int);
                assert(v[3] == g@[3] as int && v[4] == g@[4] as int && v[5] == g@[5] as int);
                assert(v[6] == g@[6] as int && v[7] == g@[7] as int);
                if yes {
                    assert(v =~= seq![0int, 0, 0, 0, 0, 0, 0, 1]);
                }
            }
            yes
        },
    }
}

fn ip_is_dangerous(ip: &IpAddress) -> (r: bool)
    requires
        ip.wf(),
    ensures
        r == is_dangerous_ip(ip@),
{
    match ip {
        IpAddress::V4(o) => {
            proof {
                let v = octets_view(o@);
                assert(v[0] == o@[0] as int && v[1] == o@[1] as int);
                assert(v[2] == o@[2] as int && v[3] == o@[3] as int);
            }
            (o[0] == 0 && o[1] == 0 && o[2] == 0 && o[3] == 0) || (o[0] == 255 && o[1] == 255
                && o[2] == 255 && o[3] == 255) || (224 <= o[0] && o[0] <= 239) || (o[0] == 169
                && o[1] == 254)
        },
        IpAddress::V6(g) => {
            let zero = g[0] == 0 && g[1] == 0 && g[2] == 0 && g[3] == 0 && g[4] == 0 && g[5] == 0
                && g[6] == 0 && g[7] == 0;
            proof {
                let v = groups_view(g@);
                assert(v[0] == g@[0] as int && v[1] == g@[1] as int && v[2] == g@[2] as int);
                assert(v[3] == g@[3] as int && v[4] == g@[4] as int && v[5] == g@[5] as int);
                assert(v[6] == g@[6] as int && v[7] == g@[7] as int);
                if zero {
                    assert(v =~= seq![0int, 0, 0, 0, 0, 0, 0, 0]);
                }
            }
            zero || g[0] >= 0xff00 || (0xfe80 <= g[0] && g[0] <= 0xfebf)
        },
    }
}

impl RuntimeLimits {
    /// `host` is listed verbatim in `network_allowed_hosts`.
    pub open spec fn host_listed(&self, host: Seq<char>) -> bool {
        exists|i: int| 0 <= i < self.network_allowed_hosts@.len() && #[trigger] self.network_allowed_hosts@[i]@ == host
    }

    /// The code a host check fails with, or `None` when the host passes.
    pub open spec fn network_host_verdict(&self, host: Seq<char>) -> Option<ErrorCode> {
        match host_ip(host) {
            None => Some(ErrorCode::InvalidAddress),
            Some(ip) => if is_dangerous_ip(ip) {
                Some(ErrorCode::ScanTargetNotAllowed)
            } else if is_loopback_ip(ip) || self.allow_non_loopback_network || self.host_listed(
                trim(host),
            ) {
                None
            } else {
                Some(ErrorCode::ScanTargetNotAllowed)
            },
        }
    }

    /// Accepts a force-close deadline within 1000..=30000 ms.
    pub fn validate_force_close_deadline(&self, value: u64) -> (r: Result<u64, DomainError>)
        ensures
            match r {
                Ok(v) => v == value && 1000 <= value <= 30000,
                Err(e) => !(1000 <= value <= 30000) && range_error(
                    e,
                    "force_close_deadline_ms"@,
                    1000,
                    30000,
                    value as int,
                ),
            },
    {
        if 1000 <= value && value <= 30000 {
            Ok(value)
        } else {
            Err(
                range_exceeded(
                    "force_close_deadline_ms is outside the allowed range.",
                    "Use a value between 1000 and 30000 milliseconds.",
                    "force_close_deadline_ms",
                    1000,
                    30000,
                    value,
                ),
            )
        }
    }

    /// Accepts a pull size up to `pull_max_bytes`.
    pub fn validate_pull_max_bytes(&self, value: usize) -> (r: Result<usize, DomainError>)
        ensures
            match r {
                Ok(v) => v == value && value <= self.pull_max_bytes,
                Err(e) => value > self.pull_max_bytes && budget_error(
                    e,
                    ErrorCode::PullMaxBytesExceeded,
                    false,
                    self.pull_max_bytes as int,
                    value as int,
                ),
            },
    {
        if value <= self.pull_max_bytes {
            Ok(value)
        } else {
            Err(
                budget_exceeded(
                    ErrorCode::PullMaxBytesExceeded,
                    "Requested pull max_bytes exceeds the configured limit.",
                    "Lower max_bytes and retry.",
                    false,
                    self.pull_max_bytes,
                    value,
                ),
            )
        }
    }

    /// Accepts an I/O timeout within `1..=io_timeout_max_ms`.
    pub fn validate_io_timeout_ms(&self, field: &str, value: u64) -> (r: Result<u64, DomainError>)
        ensures
            match r {
                Ok(v) => v == value && 1 <= value <= self.io_timeout_max_ms,
                Err(e) => !(1 <= value <= self.io_timeout_max_ms) && range_error(
                    e,
                    field@,
                    1,
                    self.io_timeout_max_ms as int,
                    value as int,
                ) && e.message@ == field@ + " is outside the allowed range."@,
            },
    {
        if 1 <= value && value <= self.io_timeout_max_ms {
            Ok(value)
        } else {
            let message = concat(field, " is outside the allowed range.");
            Err(
                range_exceeded(
                    message.as_str(),
                    "Use a value between 1 and io_timeout_max_ms milliseconds.",
                    field,
                    1,
                    self.io_timeout_max_ms,
                    value,
                ),
            )
        }
    }

    /// Accepts a TX frame of at most `tx_frame_max_bytes`.
    pub fn validate_tx_frame_len(&self, len: usize) -> (r: Result<(), DomainError>)
        ensures
            match r {
                Ok(()) => len <= self.tx_frame_max_bytes,
                Err(e) => len > self.tx_frame_max_bytes && budget_error(
                    e,
                    ErrorCode::TxFrameTooLarge,
                    true,
                    self.tx_frame_max_bytes as int,
                    len as int,
                ),
            },
    {
        if len <= self.tx_frame_max_bytes {
            Ok(())
        } else {
            Err(
                budget_exceeded(
                    ErrorCode::TxFrameTooLarge,
                    "TX frame exceeds tx_frame_max_bytes.",
                    "Reduce payload size and retry.",
                    true,
                    self.tx_frame_max_bytes,
                    len,
                ),
            )
        }
    }

    /// Accepts a host that is an IP address inside the network boundary:
    /// never unspecified, broadcast, multicast or link-local; otherwise
    /// loopback, or anything when non-loopback networking is allowed, or an
    /// explicitly allow-listed address.
    pub fn validate_network_host(&self, field: &str, host: &str) -> (r: Result<(), DomainError>)
        ensures
            match r {
                Ok(()) => self.network_host_verdict(host@) is None,
                Err(e) => {
                    &&& self.network_host_verdict(host@) == Some(e.code)
                    &&& e.category == ErrorCategory::InvalidArgument
                    &&& !e.retryable
                    &&& e.details@ == host_details(field@, host@)
                },
            },
    {
        let trimmed = str_trim(host);
        let parsed = parse_ip_exec(trimmed.as_bytes());
        match parsed {
            None => {
                let message = concat(
                    field,
                    " must be an IP address allowed by the network boundary.",
                );
                Err(host_error(ErrorCode::InvalidAddress, message.as_str(), field, host))
            },
            Some(ip) => {
                if ip_is_dangerous(&ip) {
                    let message = concat(field, " is outside the allowed network boundary.");
                    return Err(
                        host_error(ErrorCode::ScanTargetNotAllowed, message.as_str(), field, host),
                    );
                }
                if ip_is_loopback(&ip) || self.allow_non_loopback_network || self.host_is_allowed(
                    trimmed,
                ) {
                    Ok(())
                } else {
                    let message = concat(field, " is outside the allowed network boundary.");
                    Err(host_error(ErrorCode::ScanTargetNotAllowed, message.as_str(), field, host))
                }
            },
        }
    }

    fn host_is_allowed(&self, host: &str) -> (b: bool)
        ensures
            b == self.host_listed(host@),
    {
        let mut i: usize = 0;
        while i < self.network_allowed_hosts.len()
            invariant
                i <= self.network_allowed_hosts@.len(),
                forall|k: int| 0 <= k < i ==> self.network_allowed_hosts@[k]@ != host@,
            decreases self.network_allowed_hosts@.len() - i,
        {
            if str_eq(self.network_allowed_hosts[i].as_str(), host) {
                return true;
            }
            i = i + 1;
        }
        false
    }
}

} // verus!
