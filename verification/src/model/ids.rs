//! Readable identifiers and timestamps.
use vstd::prelude::*;

use crate::model::state::{InstanceType, handle_prefix_of};
use crate::util::decimal::{lemma_padded_decimal_injective, padded_decimal, push_padded_decimal};
use crate::model::error::{DetailValue, DetailView, DomainError, ErrorCategory, ErrorCode};
use crate::util::text::{concat, str_eq};
use vstd::string::StrSliceExecFns;

verus! {

/// Identifier of an instance, such as `h_tcp_001`.
#[derive(Debug, Clone)]
pub struct HandleId(String);

impl View for HandleId {
    type V = Seq<char>;

    closed spec fn view(&self) -> Seq<char> {
        self.0@
    }
}

/// `h_<prefix>_<sequence, at least three digits>`.
pub open spec fn handle_text(t: InstanceType, sequence: nat) -> Seq<char> {
    "h_"@ + handle_prefix_of(t) + "_"@ + padded_decimal(sequence, 3)
}

/// `<tag>_<date>_<sequence, at least six digits>`.
pub open spec fn dated_text(tag: Seq<char>, date: Seq<char>, sequence: nat) -> Seq<char> {
    tag + "_"@ + date + "_"@ + padded_decimal(sequence, 6)
}

/// Handle texts name their type and sequence number unambiguously.
pub proof fn lemma_handle_text_injective(t1: InstanceType, k1: nat, t2: InstanceType, k2: nat)
    requires
        handle_text(t1, k1) == handle_text(t2, k2),
    ensures
        t1 == t2,
        k1 == k2,
{
    reveal_strlit("h_");
    reveal_strlit("_");
    reveal_strlit("ser");
    reveal_strlit("tcp");
    reveal_strlit("udp");
    reveal_strlit("visa");
    let a = handle_text(t1, k1);
    let b = handle_text(t2, k2);
    assert(a[2] == handle_prefix_of(t1)[0]);
    assert(b[2] == handle_prefix_of(t2)[0]);
    let n: int = 3 + handle_prefix_of(t1).len() as int;
    assert(a.subrange(n, a.len() as int) =~= padded_decimal(k1, 3));
    assert(b.subrange(n, b.len() as int) =~= padded_decimal(k2, 3));
    lemma_padded_decimal_injective(k1, k2, 3);
}

fn dated(tag: &str, date: &str, sequence: u64) -> (s: String)
    ensures
        s@ == dated_text(tag@, date@, sequence as nat),
{
    let mut s = concat(tag, "_");
    s.append(date);
    s.append("_");
    push_padded_decimal(&mut s, sequence, 6);
    assert(s@ =~= dated_text(tag@, date@, sequence as nat));
    s
}

impl HandleId {
    /// A copy with the same text.
    pub fn duplicate(&self) -> (h: Self)
        ensures
            h == *self,
    {
        HandleId(self.0.clone())
    }

    pub fn new_for_type(instance_type: InstanceType, sequence: u64) -> (h: Self)
        ensures
            h@ == handle_text(instance_type, sequence as nat),
    {
        let mut s = concat("h_", instance_type.handle_prefix());
        s.append("_");
        push_padded_decimal(&mut s, sequence, 3);
        assert(s@ =~= handle_text(instance_type, sequence as nat));
        HandleId(s)
    }

    pub fn from_string(value: String) -> (h: Self)
        ensures
            h@ == value@,
    {
        HandleId(value)
    }

    pub fn as_str(&self) -> (s: &str)
        ensures
            s@ == self@,
    {
        self.0.as_str()
    }

    /// Two handle ids are equal exactly when their texts are.
    pub fn same_as(&self, other: &HandleId) -> (b: bool)
        ensures
            b == (self@ == other@),
    {
        self.0 == other.0
    }
}

/// Identifier of one tool call, such as `req_20260526_000001`.
#[derive(Debug, Clone)]
pub struct RequestId(String);

impl View for RequestId {
    type V = Seq<char>;

    closed spec fn view(&self) -> Seq<char> {
        self.0@
    }
}

impl RequestId {
    pub fn new(sequence: u64) -> (r: Self)
        ensures
            r@ == dated_text("req"@, "20260526"@, sequence as nat),
    {
        RequestId(dated("req", "20260526", sequence))
    }

    pub fn from_parts(date: &str, sequence: u64) -> (r: Self)
        ensures
            r@ == dated_text("req"@, date@, sequence as nat),
    {
        RequestId(dated("req", date, sequence))
    }

    pub fn as_str(&self) -> (s: &str)
        ensures
            s@ == self@,
    {
        self.0.as_str()
    }
}

/// Identifier of a recorded error, such as `err_20260526_000001`.
#[derive(Debug, Clone)]
pub struct ErrorId(String);

impl View for ErrorId {
    type V = Seq<char>;

    closed spec fn view(&self) -> Seq<char> {
        self.0@
    }
}

impl ErrorId {
    /// A copy with the same text.
    pub fn duplicate(&self) -> (e: Self)
        ensures
            e == *self,
    {
        ErrorId(self.0.clone())
    }

    pub fn from_parts(date: &str, sequence: u64) -> (r: Self)
        ensures
            r@ == dated_text("err"@, date@, sequence as nat),
    {
        ErrorId(dated("err", date, sequence))
    }

    pub fn as_str(&self) -> (s: &str)
        ensures
            s@ == self@,
    {
        self.0.as_str()
    }
}

/// Issues request, error and handle ids from per-kind counters, starting at 1.
pub struct IdGenerator {
    date: String,
    request_counter: u64,
    error_counter: u64,
    serial_counter: u64,
    tcp_counter: u64,
    udp_counter: u64,
    visa_counter: u64,
}

impl IdGenerator {
    /// The date tag of request and error ids.
    pub closed spec fn date(&self) -> Seq<char> {
        self.date@
    }

    pub closed spec fn requests_issued(&self) -> nat {
        self.request_counter as nat
    }

    pub closed spec fn errors_issued(&self) -> nat {
        self.error_counter as nat
    }

    /// Handle ids issued so far for one instance type.
    pub closed spec fn handles_issued(&self, t: InstanceType) -> nat {
        match t {
            InstanceType::Serial => self.serial_counter as nat,
            InstanceType::Tcp => self.tcp_counter as nat,
            InstanceType::Udp => self.udp_counter as nat,
            InstanceType::Visa => self.visa_counter as nat,
        }
    }

    /// A generator whose request and error ids carry `date`, such as `20260526`.
    pub fn new(date: &str) -> (g: Self)
        ensures
            g.date() == date@,
            g.requests_issued() == 0,
            g.errors_issued() == 0,
            forall|t: InstanceType| g.handles_issued(t) == 0,
    {
        Self::new_for_tests(date)
    }

    pub fn new_for_tests(date: &str) -> (g: Self)
        ensures
            g.date() == date@,
            g.requests_issued() == 0,
            g.errors_issued() == 0,
            forall|t: InstanceType| g.handles_issued(t) == 0,
    {
        IdGenerator {
            date: date.to_owned(),
            request_counter: 0,
            error_counter: 0,
            serial_counter: 0,
            tcp_counter: 0,
            udp_counter: 0,
            visa_counter: 0,
        }
    }

    pub fn next_request_id(&mut self) -> (r: RequestId)
        requires
            old(self).requests_issued() < u64::MAX,
        ensures
            r@ == dated_text("req"@, old(self).date(), old(self).requests_issued() + 1),
            final(self).requests_issued() == old(self).requests_issued() + 1,
            final(self).errors_issued() == old(self).errors_issued(),
            final(self).date() == old(self).date(),
            forall|t: InstanceType| final(self).handles_issued(t) == old(self).handles_issued(t),
    {
        self.request_counter = self.request_counter + 1;
        RequestId::from_parts(self.date.as_str(), self.request_counter)
    }

    pub fn next_error_id(&mut self) -> (r: ErrorId)
        requires
            old(self).errors_issued() < u64::MAX,
        ensures
            r@ == dated_text("err"@, old(self).date(), old(self).errors_issued() + 1),
            final(self).errors_issued() == old(self).errors_issued() + 1,
            final(self).requests_issued() == old(self).requests_issued(),
            final(self).date() == old(self).date(),
            forall|t: InstanceType| final(self).handles_issued(t) == old(self).handles_issued(t),
    {
        self.error_counter = self.error_counter + 1;
        ErrorId::from_parts(self.date.as_str(), self.error_counter)
    }

    pub fn next_handle_id(&mut self, instance_type: InstanceType) -> (h: HandleId)
        requires
            old(self).handles_issued(instance_type) < u64::MAX,
        ensures
            h@ == handle_text(instance_type, old(self).handles_issued(instance_type) + 1),
            final(self).handles_issued(instance_type) == old(self).handles_issued(instance_type) + 1,
            forall|t: InstanceType|
                t != instance_type ==> final(self).handles_issued(t) == old(self).handles_issued(t),
            final(self).requests_issued() == old(self).requests_issued(),
            final(self).errors_issued() == old(self).errors_issued(),
            final(self).date() == old(self).date(),
    {
        let sequence = match instance_type {
            InstanceType::Serial => {
                self.serial_counter = self.serial_counter + 1;
                self.serial_counter
            },
            InstanceType::Tcp => {
                self.tcp_counter = self.tcp_counter + 1;
                self.tcp_counter
            },
            InstanceType::Udp => {
                self.udp_counter = self.udp_counter + 1;
                self.udp_counter
            },
            InstanceType::Visa => {
                self.visa_counter = self.visa_counter + 1;
                self.visa_counter
            },
        };
        HandleId::new_for_type(instance_type, sequence)
    }
}

/// Whether `time` accepts `value` as an RFC 3339 date-time.
pub uninterp spec fn rfc3339_valid(value: Seq<char>) -> bool;

/// `time::OffsetDateTime::parse` with the RFC 3339 description: whether it
/// succeeds. The outcome depends on the text alone; the grammar is the
/// crate's and is not restated here.
#[verifier::external_body]
fn rfc3339_parses(value: &str) -> (b: bool)
    ensures
        b == rfc3339_valid(value@),
{
    time::OffsetDateTime::parse(value, &time::format_description::well_known::Rfc3339).is_ok()
}

/// `time::OffsetDateTime::now_utc` rendered with the RFC 3339 description;
/// `None` when the crate refuses to render it (a year outside 0..=9999).
/// The instant depends on the clock and is not stated; what holds of every
/// outcome is: the text is one that the crate's RFC 3339 parser accepts,
/// and, the offset being UTC, it ends in `Z`.
#[verifier::external_body]
fn utc_now_rfc3339() -> (r: Option<String>)
    ensures
        r matches Some(s) ==> rfc3339_valid(s@) && s@.len() > 0 && s@.last() == 'Z',
{
    time::OffsetDateTime::now_utc().format(&time::format_description::well_known::Rfc3339).ok()
}

/// An RFC 3339 instant, kept as text.
#[derive(Debug, Clone)]
pub struct Timestamp(String);

impl View for Timestamp {
    type V = Seq<char>;

    closed spec fn view(&self) -> Seq<char> {
        self.0@
    }
}

/// `value` with a trailing `+00:00` written as `Z`.
pub open spec fn normalized_rfc3339(value: Seq<char>) -> Seq<char> {
    if value.len() >= 6 && value.subrange(value.len() - 6, value.len() as int) == "+00:00"@ {
        value.subrange(0, value.len() - 6) + "Z"@
    } else {
        value
    }
}

/// Writes a UTC offset of `+00:00` as `Z`.
pub fn normalize_rfc3339(value: String) -> (r: String)
    ensures
        r@ == normalized_rfc3339(value@),
{
    let n = value.as_str().unicode_len();
    if n >= 6 {
        let tail = value.as_str().substring_char(n - 6, n);
        if str_eq(tail, "+00:00") {
            let head = value.as_str().substring_char(0, n - 6);
            return concat(head, "Z");
        }
    }
    value
}

impl Timestamp {
    /// A copy with the same text.
    pub fn duplicate(&self) -> (t: Self)
        ensures
            t == *self,
    {
        Timestamp(self.0.clone())
    }

    /// The current UTC instant, with `Z` as its offset; `None` when the
    /// clock cannot be written in RFC 3339.
    pub fn now_utc() -> (r: Option<Timestamp>)
        ensures
            r matches Some(t) ==> rfc3339_valid(t@) && t@.len() > 0 && t@.last() == 'Z',
    {
        match utc_now_rfc3339() {
            Some(raw) => {
                let ghost g = raw@;
                let t = Timestamp(normalize_rfc3339(raw));
                proof {
                    if g.len() >= 6 {
                        reveal_strlit("+00:00");
                        let tail = g.subrange(g.len() - 6, g.len() as int);
                        assert(tail[5] == g.last());
                        assert("+00:00"@[5] == '0');
                        assert(tail != "+00:00"@);
                    }
                }
                assert(t@ == g);
                Some(t)
            },
            None => None,
        }
    }

    /// Keeps `value` when it parses as RFC 3339.
    pub fn from_rfc3339(value: &str) -> (r: Result<Timestamp, DomainError>)
        ensures
            match r {
                Ok(t) => rfc3339_valid(value@) && t@ == value@,
                Err(e) => {
                    &&& !rfc3339_valid(value@)
                    &&& e.category == ErrorCategory::InvalidArgument
                    &&& e.code == ErrorCode::InvalidFieldType
                    &&& e.details@ == seq![("timestamp"@, DetailView::Text(value@))]
                },
            },
    {
        if rfc3339_parses(value) {
            Ok(Timestamp(value.to_owned()))
        } else {
            let e = DomainError::invalid_argument(
                ErrorCode::InvalidFieldType,
                "Timestamp is not an RFC 3339 date-time.",
                "Use a timestamp such as 2026-05-26T00:00:00.000Z.",
            ).with_detail("timestamp", DetailValue::Text(value.to_owned()));
            assert(e.details@ =~= seq![("timestamp"@, DetailView::Text(value@))]);
            Err(e)
        }
    }

    pub fn as_str(&self) -> (s: &str)
        ensures
            s@ == self@,
    {
        self.0.as_str()
    }

    /// The digits among the first ten characters, such as `20260526` for
    /// `2026-05-26T00:00:00Z`.
    pub fn date_tag(&self) -> (d: String)
        ensures
            d@ == digits_of(self@.take(if self@.len() < 10 { self@.len() as int } else { 10 })),
    {
        let text = self.0.as_str();
        let n = vstd::string::StrSliceExecFns::unicode_len(text);
        let end: usize = if n < 10 {
            n
        } else {
            10
        };
        let mut d = String::new();
        let mut i: usize = 0;
        while i < end
            invariant
                n == self@.len(),
                text@ == self@,
                end <= n,
                i <= end,
                d@ == digits_of(self@.take(i as int)),
            decreases end - i,
        {
            let c = vstd::string::StrSliceExecFns::get_char(text, i);
            assert(self@.take(i + 1).drop_last() =~= self@.take(i as int));
            if '0' <= c && c <= '9' {
                crate::util::text::string_push(&mut d, c);
            }
            i = i + 1;
        }
        d
    }
}

/// The decimal digits of `s`, in order.
pub open spec fn digits_of(s: Seq<char>) -> Seq<char>
    decreases s.len(),
{
    if s.len() == 0 {
        Seq::empty()
    } else if '0' <= s.last() <= '9' {
        digits_of(s.drop_last()).push(s.last())
    } else {
        digits_of(s.drop_last())
    }
}

} // verus!
