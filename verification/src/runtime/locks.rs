//! Keys of exclusively owned resources, their normalisation, and the errors
//! a busy resource is answered with.
use vstd::prelude::*;
use vstd::string::{StrSliceExecFns, StringSliceAdditionalSpecFns};
use vstd::utf8::encode_utf8;

use crate::model::error::{DetailValue, DetailView, DomainError, ErrorCategory, ErrorCode};
use crate::model::ids::HandleId;
use crate::util::decimal::{decimal, hex_numeral, push_hex, push_padded_decimal};
use crate::util::ipaddr::{IpAddress, IpModel, groups_view, octets_view, parse_ip, parse_ip_exec};
use crate::util::text::{
    ascii_lower, ascii_upper, concat, str_trim, string_push, to_ascii_lowercase,
    to_ascii_uppercase, trim,
};

verus! {

/// The text of a field of a dotted host: `u8::from_str` accepts an optional
/// `+` and then one or more ASCII digits whose value is at most 255.
pub open spec fn u8_text_value(f: Seq<char>) -> Option<int> {
    let d = unsigned_digits(f);
    if d.len() > 0 && all_digits(d) && digits_int(d) <= 255 {
        Some(digits_int(d))
    } else {
        None
    }
}

/// `f` without a leading `+`.
pub open spec fn unsigned_digits(f: Seq<char>) -> Seq<char> {
    if f.len() > 0 && f[0] == '+' {
        f.drop_first()
    } else {
        f
    }
}

/// Every character of `d` is an ASCII digit.
pub open spec fn all_digits(d: Seq<char>) -> bool {
    forall|i: int| 0 <= i < d.len() ==> '0' <= #[trigger] d[i] <= '9'
}

/// The value of a run of ASCII digits.
pub open spec fn digits_int(d: Seq<char>) -> int
    decreases d.len(),
{
    if d.len() == 0 {
        0
    } else {
        digits_int(d.drop_last()) * 10 + (d.last() as int - '0' as int)
    }
}

/// The first `.` of `t` at or after `pos`, or the end of `t`.
pub open spec fn field_end(t: Seq<char>, pos: int) -> int
    decreases t.len() - pos,
{
    if pos >= t.len() || pos < 0 {
        t.len() as int
    } else if t[pos] == '.' {
        pos
    } else {
        field_end(t, pos + 1)
    }
}

/// Fields `k..4` of `t` from `pos`, when `t` splits on `.` into exactly four
/// fields that each read as a `u8`.
pub open spec fn quad_from(t: Seq<char>, pos: int, k: int) -> Option<Seq<int>>
    decreases 4 - k,
{
    if k >= 4 || pos < 0 || pos > t.len() {
        None
    } else {
        let e = field_end(t, pos);
        match u8_text_value(t.subrange(pos, e)) {
            None => None,
            Some(v) => if k == 3 {
                if e == t.len() {
                    Some(seq![v])
                } else {
                    None
                }
            } else if e < t.len() {
                match quad_from(t, e + 1, k + 1) {
                    Some(rest) => Some(seq![v] + rest),
                    None => None,
                }
            } else {
                None
            },
        }
    }
}

/// `a.b.c.d` in decimal.
pub open spec fn quad_text(o: Seq<int>) -> Seq<char> {
    decimal(o[0] as nat) + "."@ + decimal(o[1] as nat) + "."@ + decimal(o[2] as nat) + "."@
        + decimal(o[3] as nat)
}

/// Groups in lower-case hex, separated by `:`.
pub open spec fn hex_join(g: Seq<int>) -> Seq<char>
    decreases g.len(),
{
    if g.len() == 0 {
        Seq::empty()
    } else if g.len() == 1 {
        hex_numeral(g[0] as nat)
    } else {
        hex_join(g.drop_last()) + ":"@ + hex_numeral(g.last() as nat)
    }
}

/// The first longest run of zero groups from `i` on, given the run in
/// progress and the best run so far, as (start, length).
pub open spec fn zero_run(
    g: Seq<int>,
    i: int,
    cur_start: int,
    cur_len: int,
    best_start: int,
    best_len: int,
) -> (int, int)
    decreases g.len() - i,
{
    if i >= g.len() || i < 0 {
        (best_start, best_len)
    } else if g[i] == 0 {
        let cs = if cur_len == 0 {
            i
        } else {
            cur_start
        };
        if cur_len + 1 > best_len {
            zero_run(g, i + 1, cs, cur_len + 1, cs, cur_len + 1)
        } else {
            zero_run(g, i + 1, cs, cur_len + 1, best_start, best_len)
        }
    } else {
        zero_run(g, i + 1, 0, 0, best_start, best_len)
    }
}

/// The canonical text of an IPv6 address: IPv4-mapped addresses as
/// `::ffff:a.b.c.d`; otherwise hex groups with the first longest run of two
/// or more zero groups written as `::`.
pub open spec fn ipv6_text(g: Seq<int>) -> Seq<char> {
    if g[0] == 0 && g[1] == 0 && g[2] == 0 && g[3] == 0 && g[4] == 0 && g[5] == 0xffff {
        "::ffff:"@ + quad_text(seq![g[6] / 256, g[6] % 256, g[7] / 256, g[7] % 256])
    } else {
        let run = zero_run(g, 0, 0, 0, 0, 0);
        if run.1 > 1 {
            hex_join(g.subrange(0, run.0)) + "::"@ + hex_join(g.subrange(run.0 + run.1, 8))
        } else {
            hex_join(g)
        }
    }
}

/// The canonical text of an address.
pub open spec fn ip_text(ip: IpModel) -> Seq<char> {
    match ip {
        IpModel::V4(o) => quad_text(o),
        IpModel::V6(g) => ipv6_text(g),
    }
}

/// A host as lock keys hold it: trimmed and lower-cased; a dotted quad of
/// `u8` fields (leading zeros allowed) as plain decimal; any other IP
/// address in canonical form; anything else as it is.
pub open spec fn normalized_host(host: Seq<char>) -> Seq<char> {
    let t = ascii_lower(trim(host));
    match quad_from(t, 0, 0) {
        Some(o) => quad_text(o),
        None => match parse_ip(encode_utf8(t)) {
            Some(ip) => ip_text(ip),
            None => t,
        },
    }
}

proof fn lemma_field_end_bounds(t: Seq<char>, pos: int)
    requires
        0 <= pos <= t.len(),
    ensures
        pos <= field_end(t, pos) <= t.len(),
        field_end(t, pos) < t.len() ==> t[field_end(t, pos)] == '.',
        forall|k: int| pos <= k < field_end(t, pos) ==> t[k] != '.',
    decreases t.len() - pos,
{
    if pos < t.len() && t[pos] != '.' {
        lemma_field_end_bounds(t, pos + 1);
    }
}

fn field_end_exec(t: &str, n: usize, pos: usize) -> (e: usize)
    requires
        n == t@.len(),
        pos <= n,
    ensures
        e == field_end(t@, pos as int),
        pos <= e <= n,
    decreases n - pos,
{
    proof {
        lemma_field_end_bounds(t@, pos as int);
    }
    if pos >= n {
        n
    } else if t.get_char(pos) == '.' {
        pos
    } else {
        field_end_exec(t, n, pos + 1)
    }
}

/// The value of a `u8` field, with the value capped at 256 while reading.
fn u8_text_value_exec(f: &str) -> (r: Option<u8>)
    ensures
        match r {
            Some(v) => u8_text_value(f@) == Some(v as int),
            None => u8_text_value(f@) is None,
        },
{
    let n = f.unicode_len();
    let start: usize = if n > 0 && f.get_char(0) == '+' {
        1
    } else {
        0
    };
    let ghost d = unsigned_digits(f@);
    assert(d =~= f@.subrange(start as int, n as int));
    if start >= n {
        return None;
    }
    let mut i: usize = start;
    let mut value: u32 = 0;
    while i < n
        invariant
            n == f@.len(),
            start <= i <= n,
            d =~= f@.subrange(start as int, n as int),
            d == unsigned_digits(f@),
            forall|k: int| start <= k < i ==> '0' <= #[trigger] f@[k] <= '9',
            value == if digits_int(f@.subrange(start as int, i as int)) > 255 {
                256
            } else {
                digits_int(f@.subrange(start as int, i as int))
            },
            digits_int(f@.subrange(start as int, i as int)) >= 0,
        decreases n - i,
    {
        let c = f.get_char(i);
        if !('0' <= c && c <= '9') {
            assert(!('0' <= d[i - start] <= '9'));
            assert(!(forall|j: int| 0 <= j < d.len() ==> '0' <= #[trigger] d[j] <= '9'));
            assert(u8_text_value(f@) is None);
            return None;
        }
        let digit = (c as u32) - 48;
        proof {
            let prev = f@.subrange(start as int, i as int);
            assert(f@.subrange(start as int, i + 1).drop_last() =~= prev);
            assert(digits_int(f@.subrange(start as int, i + 1)) == digits_int(prev) * 10 + digit);
        }
        if value > 255 {
            value = 256;
        } else {
            value = value * 10 + digit;
            if value > 255 {
                value = 256;
            }
        }
        i = i + 1;
    }
    if value > 255 {
        return None;
    }
    Some(value as u8)
}

fn quad_from_exec(t: &str) -> (r: Option<Vec<u8>>)
    ensures
        match r {
            Some(o) => quad_from(t@, 0, 0) == Some(octets_view(o@)) && o@.len() == 4,
            None => quad_from(t@, 0, 0) is None,
        },
{
    let n = t.unicode_len();
    let mut octets: Vec<u8> = Vec::new();
    let mut pos: usize = 0;
    let mut k: usize = 0;
    while k < 4
        invariant
            n == t@.len(),
            k <= 4,
            pos <= n,
            octets@.len() == k,
            k < 4 ==> quad_from(t@, 0, 0) == match quad_from(t@, pos as int, k as int) {
                Some(rest) => Some(octets_view(octets@) + rest),
                None => None::<Seq<int>>,
            },
            k == 4 ==> quad_from(t@, 0, 0) == Some(octets_view(octets@)),
        decreases 4 - k,
    {
        let e = field_end_exec(t, n, pos);
        let field = t.substring_char(pos, e);
        let ghost before = octets_view(octets@);
        match u8_text_value_exec(field) {
            None => {
                return None;
            },
            Some(v) => {
                octets.push(v);
                proof {
                    assert(octets_view(octets@) =~= before + seq![v as int]);
                }
                if k == 3 {
                    if e != n {
                        return None;
                    }
                    k = 4;
                } else {
                    if e >= n {
                        return None;
                    }
                    proof {
                        match quad_from(t@, e + 1, k + 1) {
                            Some(rest) => {
                                assert(before + (seq![v as int] + rest) =~= (before + seq![
                                    v as int,
                                ]) + rest);
                            },
                            None => {},
                        }
                    }
                    pos = e + 1;
                    k = k + 1;
                }
            },
        }
    }
    Some(octets)
}

fn push_quad(s: &mut String, o: &Vec<u8>)
    requires
        o@.len() == 4,
    ensures
        final(s)@ == old(s)@ + quad_text(octets_view(o@)),
{
    let ghost v = octets_view(o@);
    assert(v[0] == o@[0] && v[1] == o@[1] && v[2] == o@[2] && v[3] == o@[3]);
    push_padded_decimal(s, o[0] as u64, 0);
    s.append(".");
    push_padded_decimal(s, o[1] as u64, 0);
    s.append(".");
    push_padded_decimal(s, o[2] as u64, 0);
    s.append(".");
    push_padded_decimal(s, o[3] as u64, 0);
    assert(s@ =~= old(s)@ + quad_text(v));
}

fn push_hex_join(s: &mut String, g: &Vec<u16>, from: usize, to: usize)
    requires
        from <= to <= g@.len(),
    ensures
        final(s)@ == old(s)@ + hex_join(groups_view(g@).subrange(from as int, to as int)),
{
    let ghost gv = groups_view(g@);
    let mut i: usize = from;
    while i < to
        invariant
            from <= i <= to <= g@.len(),
            gv == groups_view(g@),
            s@ =~= old(s)@ + hex_join(gv.subrange(from as int, i as int)),
        decreases to - i,
    {
        let ghost prev = s@;
        if i > from {
            s.append(":");
        }
        push_hex(s, g[i] as u64);
        proof {
            let sub = gv.subrange(from as int, i + 1);
            assert(sub.drop_last() =~= gv.subrange(from as int, i as int));
            assert(sub.last() == g@[i as int] as int);
            if i == from {
                assert(sub.len() == 1);
            }
        }
        i = i + 1;
    }
}

fn zero_run_exec(g: &Vec<u16>) -> (r: (usize, usize))
    requires
        g@.len() == 8,
    ensures
        (r.0 as int, r.1 as int) == zero_run(groups_view(g@), 0, 0, 0, 0, 0),
        r.0 + r.1 <= 8,
{
    let ghost gv = groups_view(g@);
    let mut cur_start: usize = 0;
    let mut cur_len: usize = 0;
    let mut best_start: usize = 0;
    let mut best_len: usize = 0;
    let mut i: usize = 0;
    while i < 8
        invariant
            g@.len() == 8,
            gv == groups_view(g@),
            i <= 8,
            cur_start + cur_len == i || cur_len == 0,
            cur_len <= i,
            best_start + best_len <= i,
            zero_run(gv, 0, 0, 0, 0, 0) == zero_run(
                gv,
                i as int,
                cur_start as int,
                cur_len as int,
                best_start as int,
                best_len as int,
            ),
        decreases 8 - i,
    {
        assert(gv[i as int] == g@[i as int] as int);
        if g[i] == 0 {
            if cur_len == 0 {
                cur_start = i;
            }
            cur_len = cur_len + 1;
            if cur_len > best_len {
                best_start = cur_start;
                best_len = cur_len;
            }
        } else {
            cur_start = 0;
            cur_len = 0;
        }
        i = i + 1;
    }
    (best_start, best_len)
}

fn push_ipv6(s: &mut String, g: &Vec<u16>)
    requires
        g@.len() == 8,
    ensures
        final(s)@ == old(s)@ + ipv6_text(groups_view(g@)),
{
    let ghost gv = groups_view(g@);
    assert(gv[0] == g@[0] && gv[1] == g@[1] && gv[2] == g@[2] && gv[3] == g@[3]);
    assert(gv[4] == g@[4] && gv[5] == g@[5] && gv[6] == g@[6] && gv[7] == g@[7]);
    if g[0] == 0 && g[1] == 0 && g[2] == 0 && g[3] == 0 && g[4] == 0 && g[5] == 0xffff {
        s.append("::ffff:");
        let o = vec![(g[6] / 256) as u8, (g[6] % 256) as u8, (g[7] / 256) as u8, (g[7] % 256) as u8];
        assert(octets_view(o@) =~= seq![gv[6] / 256, gv[6] % 256, gv[7] / 256, gv[7] % 256]);
        push_quad(s, &o);
    } else {
        let (start, len) = zero_run_exec(g);
        if len > 1 {
            push_hex_join(s, g, 0, start);
            s.append("::");
            push_hex_join(s, g, start + len, 8);
        } else {
            push_hex_join(s, g, 0, 8);
            assert(gv.subrange(0, 8) =~= gv);
        }
    }
}

/// Trims, lower-cases and canonicalises a host for use in a lock key.
pub fn normalize_host(host: &str) -> (r: String)
    ensures
        r@ == normalized_host(host@),
{
    let lowered = to_ascii_lowercase(str_trim(host));
    match quad_from_exec(lowered.as_str()) {
        Some(o) => {
            let mut out = String::new();
            push_quad(&mut out, &o);
            return out;
        },
        None => {},
    }
    match parse_ip_exec(lowered.as_str().as_bytes()) {
        Some(IpAddress::V4(o)) => {
            let mut out = String::new();
            push_quad(&mut out, &o);
            out
        },
        Some(IpAddress::V6(g)) => {
            let mut out = String::new();
            push_ipv6(&mut out, &g);
            out
        },
        None => lowered,
    }
}

/// The key of an exclusively owned resource, such as `serial:COM3`.
#[derive(Debug, Clone)]
pub struct ResourceKey(String);

impl View for ResourceKey {
    type V = Seq<char>;

    closed spec fn view(&self) -> Seq<char> {
        self.0@
    }
}

/// `serial:` and the trimmed, upper-cased port name.
pub open spec fn serial_key(port: Seq<char>) -> Seq<char> {
    "serial:"@ + ascii_upper(trim(port))
}

/// `tcp-listen:` and the normalised host and port.
pub open spec fn tcp_listen_key(host: Seq<char>, port: nat) -> Seq<char> {
    "tcp-listen:"@ + normalized_host(host) + ":"@ + decimal(port)
}

/// `udp-bind:` and the normalised host and port.
pub open spec fn udp_bind_key(host: Seq<char>, port: nat) -> Seq<char> {
    "udp-bind:"@ + normalized_host(host) + ":"@ + decimal(port)
}

/// `visa:` and the trimmed, upper-cased resource address.
pub open spec fn visa_key(address: Seq<char>) -> Seq<char> {
    "visa:"@ + ascii_upper(trim(address))
}

fn host_port_key(prefix: &str, host: &str, port: u16) -> (s: String)
    ensures
        s@ == prefix@ + normalized_host(host@) + ":"@ + decimal(port as nat),
{
    let normalized = normalize_host(host);
    let mut s = concat(prefix, normalized.as_str());
    s.append(":");
    push_padded_decimal(&mut s, port as u64, 0);
    s
}

impl ResourceKey {
    pub fn serial(port: &str) -> (k: Self)
        ensures
            k@ == serial_key(port@),
    {
        let upper = to_ascii_uppercase(str_trim(port));
        ResourceKey(concat("serial:", upper.as_str()))
    }

    pub fn tcp_listen(host: &str, port: u16) -> (k: Self)
        ensures
            k@ == tcp_listen_key(host@, port as nat),
    {
        ResourceKey(host_port_key("tcp-listen:", host, port))
    }

    pub fn udp_bind(host: &str, port: u16) -> (k: Self)
        ensures
            k@ == udp_bind_key(host@, port as nat),
    {
        ResourceKey(host_port_key("udp-bind:", host, port))
    }

    pub fn visa(resource_address: &str) -> (k: Self)
        ensures
            k@ == visa_key(resource_address@),
    {
        let upper = to_ascii_uppercase(str_trim(resource_address));
        ResourceKey(concat("visa:", upper.as_str()))
    }

    pub fn as_str(&self) -> (s: &str)
        ensures
            s@ == self@,
    {
        self.0.as_str()
    }

    /// A copy with the same text.
    pub fn duplicate(&self) -> (k: Self)
        ensures
            k == *self,
    {
        ResourceKey(self.0.clone())
    }

    /// Two keys are equal exactly when their texts are.
    pub fn same_as(&self, other: &ResourceKey) -> (b: bool)
        ensures
            b == (self@ == other@),
    {
        self.0 == other.0
    }
}

/// Life cycle of a resource lock.
#[derive(Debug, Clone, Copy, PartialEq, Eq, Structural)]
pub enum ResourceLockState {
    Held,
    Closing,
    Stale,
}

/// Who holds a resource, and in which state.
#[derive(Debug, Clone)]
pub struct ResourceLockEntry {
    pub owner_handle_id: HandleId,
    pub state: ResourceLockState,
    pub generation: u64,
    pub stale_close: bool,
}

impl ResourceLockEntry {
    /// A copy of the entry.
    pub fn duplicate(&self) -> (e: Self)
        ensures
            e == *self,
    {
        ResourceLockEntry {
            owner_handle_id: self.owner_handle_id.duplicate(),
            state: self.state,
            generation: self.generation,
            stale_close: self.stale_close,
        }
    }

    /// A fresh lock held by `owner_handle_id`.
    pub fn held(owner_handle_id: HandleId) -> (e: Self)
        ensures
            e.owner_handle_id@ == owner_handle_id@,
            e.state == ResourceLockState::Held,
            e.generation == 1,
            !e.stale_close,
    {
        ResourceLockEntry { owner_handle_id, state: ResourceLockState::Held, generation: 1, stale_close: false }
    }
}

/// `key` starts with `prefix`.
pub open spec fn has_prefix(key: Seq<char>, prefix: Seq<char>) -> bool {
    key.len() >= prefix.len() && key.subrange(0, prefix.len() as int) == prefix
}

/// The busy code of a resource, by the kind its key names.
pub open spec fn busy_code(key: Seq<char>) -> ErrorCode {
    if has_prefix(key, "serial:"@) {
        ErrorCode::SerialPortBusy
    } else if has_prefix(key, "tcp-listen:"@) {
        ErrorCode::TcpListenAddrBusy
    } else if has_prefix(key, "visa:"@) {
        ErrorCode::VisaResourceBusy
    } else {
        ErrorCode::UdpBindAddrBusy
    }
}

/// The resource kind its key names.
pub open spec fn key_kind(key: Seq<char>) -> Seq<char> {
    if has_prefix(key, "serial:"@) {
        "serial"@
    } else if has_prefix(key, "tcp-listen:"@) {
        "tcp-listen"@
    } else if has_prefix(key, "visa:"@) {
        "visa"@
    } else {
        "udp-bind"@
    }
}

/// The code a lock in `state` refuses a contender with.
pub open spec fn lock_error_code(key: Seq<char>, state: ResourceLockState) -> ErrorCode {
    match state {
        ResourceLockState::Held => busy_code(key),
        ResourceLockState::Closing => ErrorCode::ResourceClosing,
        ResourceLockState::Stale => ErrorCode::ResourceLockStale,
    }
}

/// `e` refuses a contender for `key`, held by `owner` in `state`.
pub open spec fn lock_error(e: DomainError, key: Seq<char>, owner: Seq<char>, state: ResourceLockState) -> bool {
    &&& e.category == ErrorCategory::ResourceBusy
    &&& e.code == lock_error_code(key, state)
    &&& e.retryable == (state == ResourceLockState::Closing)
    &&& e.details@ == seq![
        (
            "resource"@,
            DetailView::Fields(seq![("kind"@, key_kind(key)), ("display"@, key)]),
        ),
        ("owner_handle_id"@, DetailView::Text(owner)),
    ]
}

fn starts_with(s: &str, prefix: &str) -> (b: bool)
    ensures
        b == has_prefix(s@, prefix@),
{
    let n = s.unicode_len();
    let m = prefix.unicode_len();
    if n < m {
        return false;
    }
    let head = s.substring_char(0, m);
    crate::util::text::str_eq(head, prefix)
}

fn key_kind_exec(key: &ResourceKey) -> (k: &'static str)
    ensures
        k@ == key_kind(key@),
{
    if starts_with(key.as_str(), "serial:") {
        "serial"
    } else if starts_with(key.as_str(), "tcp-listen:") {
        "tcp-listen"
    } else if starts_with(key.as_str(), "visa:") {
        "visa"
    } else {
        "udp-bind"
    }
}

fn busy_code_exec(key: &ResourceKey) -> (c: ErrorCode)
    ensures
        c == busy_code(key@),
{
    if starts_with(key.as_str(), "serial:") {
        ErrorCode::SerialPortBusy
    } else if starts_with(key.as_str(), "tcp-listen:") {
        ErrorCode::TcpListenAddrBusy
    } else if starts_with(key.as_str(), "visa:") {
        ErrorCode::VisaResourceBusy
    } else {
        ErrorCode::UdpBindAddrBusy
    }
}

/// The error a contender for `key` receives while `entry` holds it.
pub fn resource_lock_error(key: &ResourceKey, entry: &ResourceLockEntry) -> (e: DomainError)
    ensures
        lock_error(e, key@, entry.owner_handle_id@, entry.state),
{
    let code = match entry.state {
        ResourceLockState::Held => busy_code_exec(key),
        ResourceLockState::Closing => ErrorCode::ResourceClosing,
        ResourceLockState::Stale => ErrorCode::ResourceLockStale,
    };
    let message = match entry.state {
        ResourceLockState::Held => "Resource is already owned by another instance.",
        ResourceLockState::Closing => "Resource is still closing from a released instance.",
        ResourceLockState::Stale => "Resource lock is stale and requires operator attention.",
    };
    let retryable = match entry.state {
        ResourceLockState::Closing => true,
        _ => false,
    };
    let fields = vec![
        ("kind".to_owned(), key_kind_exec(key).to_owned()),
        ("display".to_owned(), key.as_str().to_owned()),
    ];
    let e = DomainError::new(
        ErrorCategory::ResourceBusy,
        code,
        message,
        "Release the owning instance, wait for closing to complete, or choose another resource.",
        retryable,
    ).with_detail("resource", DetailValue::Fields(fields)).with_detail(
        "owner_handle_id",
        DetailValue::Text(entry.owner_handle_id.as_str().to_owned()),
    );
    assert(e.details@ =~= seq![
        (
            "resource"@,
            DetailView::Fields(seq![("kind"@, key_kind(key@)), ("display"@, key@)]),
        ),
        ("owner_handle_id"@, DetailView::Text(entry.owner_handle_id@)),
    ]) by {
        let fv = seq![
            ("kind"@, key_kind(key@)),
            ("display"@, key@),
        ];
        assert(fields@.map_values(|f: (String, String)| (f.0@, f.1@)) =~= fv);
    }
    e
}

} // verus!
