//! VISA instruments: resource summaries, resource classes, and the
//! classification of VISA failures. This build has no VISA backend.
use vstd::prelude::*;

use crate::model::config::VisaConfig;
use crate::model::error::{DetailValue, DetailView, DomainError, ErrorCategory, ErrorCode};
use crate::util::text::{ascii_lower, contains_text, str_contains, to_ascii_lowercase, trim};

verus! {

/// A VISA resource found by a scan.
#[derive(Debug, Clone)]
pub struct VisaResourceSummary {
    pub resource_address: String,
    pub resource_class: Option<String>,
}

/// The resources found by a scan.
#[derive(Debug, Clone)]
pub struct VisaScanResult {
    pub resources: Vec<VisaResourceSummary>,
}

/// `e` reports that the VISA backend is not part of this build.
pub open spec fn not_compiled(e: DomainError, tool: Seq<char>) -> bool {
    &&& e.category == ErrorCategory::InvalidState
    &&& e.code == ErrorCode::FeatureNotCompiled
    &&& e.details@ == seq![
        ("feature"@, DetailView::Text("visa"@)),
        ("tool"@, DetailView::Text(tool)),
    ]
}

/// The error every VISA operation gives in this build.
pub fn feature_not_compiled(tool: &str) -> (e: DomainError)
    ensures
        not_compiled(e, tool@),
{
    DomainError::feature_not_compiled("visa", tool)
}

/// Scans for VISA resources; this build has no backend to ask.
pub fn scan_visa_resources(resource_filter: &str, max_results: usize) -> (r: Result<VisaScanResult, DomainError>)
    ensures
        r matches Err(e) && not_compiled(e, "port_scan"@),
{
    Err(feature_not_compiled("port_scan"))
}

/// A VISA session; this build cannot open one.
pub struct VisaWorker {
    config: VisaConfig,
    reads: Ghost<Seq<Result<Seq<u8>, DomainError>>>,
}

impl VisaWorker {
    /// The outcomes of the chunk reads made so far, oldest first.
    pub closed spec fn reads(&self) -> Seq<Result<Seq<u8>, DomainError>> {
        self.reads@
    }

    /// Notes the outcome of one chunk read.
    pub fn note_read(&mut self, r: &Result<Vec<u8>, DomainError>)
        ensures
            final(self).reads() == old(self).reads().push(crate::util::encoding::vec_result_view(*r)),
    {
        self.reads = Ghost(self.reads@.push(crate::util::encoding::vec_result_view(*r)));
    }

    pub fn open(config: &VisaConfig) -> (r: Result<Self, DomainError>)
        ensures
            r matches Err(e) && not_compiled(e, "port_connect"@),
    {
        Err(feature_not_compiled("port_connect"))
    }

    pub fn write(&self, bytes: &[u8]) -> (r: Result<usize, DomainError>)
        ensures
            r matches Err(e) && not_compiled(e, "port_send"@),
    {
        Err(feature_not_compiled("port_send"))
    }

    pub fn read(&self, max_bytes: usize) -> (r: Result<Vec<u8>, DomainError>)
        ensures
            r matches Err(e) && not_compiled(e, "port_pull"@),
    {
        Err(feature_not_compiled("port_pull"))
    }

    pub fn clear(&self) -> (r: Result<(), DomainError>)
        ensures
            r matches Err(e) && not_compiled(e, "port_clear"@),
    {
        Err(feature_not_compiled("port_clear"))
    }

    pub fn close(self) -> (r: Result<(), DomainError>)
        ensures
            r matches Err(e) && not_compiled(e, "port_disconnect"@),
    {
        Err(feature_not_compiled("port_disconnect"))
    }
}

/// The leading run of ASCII letters of `s`.
pub open spec fn alpha_prefix(s: Seq<char>) -> Seq<char>
    decreases s.len(),
{
    if s.len() > 0 && (('a' <= s[0] <= 'z') || ('A' <= s[0] <= 'Z')) {
        seq![s[0]] + alpha_prefix(s.drop_first())
    } else {
        Seq::empty()
    }
}

/// The class of a resource address: the lower-cased letters that start its
/// trimmed first `::` segment, if any.
pub open spec fn resource_class_of(address: Seq<char>) -> Option<Seq<char>> {
    let p = ascii_lower(alpha_prefix(trim(crate::model::config::first_segment(address))));
    if p.len() == 0 {
        None
    } else {
        Some(p)
    }
}

fn alpha_prefix_len(s: &str) -> (n: usize)
    ensures
        s@.subrange(0, n as int) == alpha_prefix(s@),
        n <= s@.len(),
{
    let len = vstd::string::StrSliceExecFns::unicode_len(s);
    let mut i: usize = 0;
    assert(s@.skip(0) =~= s@);
    assert(s@.subrange(0, 0) + alpha_prefix(s@) =~= alpha_prefix(s@));
    while i < len
        invariant
            len == s@.len(),
            i <= len,
            alpha_prefix(s@) == s@.subrange(0, i as int) + alpha_prefix(s@.skip(i as int)),
        decreases len - i,
    {
        let c = vstd::string::StrSliceExecFns::get_char(s, i);
        if !(('a' <= c && c <= 'z') || ('A' <= c && c <= 'Z')) {
            assert(alpha_prefix(s@.skip(i as int)) =~= Seq::<char>::empty());
            assert(s@.subrange(0, i as int) + Seq::<char>::empty() =~= s@.subrange(0, i as int));
            return i;
        }
        proof {
            let t = s@.skip(i as int);
            assert(t.drop_first() =~= s@.skip(i + 1));
            assert(s@.subrange(0, i + 1) =~= s@.subrange(0, i as int) + seq![c]);
            assert(s@.subrange(0, i as int) + (seq![c] + alpha_prefix(s@.skip(i + 1))) =~= s@.subrange(
                0,
                i + 1,
            ) + alpha_prefix(s@.skip(i + 1)));
        }
        i = i + 1;
    }
    proof {
        assert(alpha_prefix(s@.skip(len as int)) =~= Seq::<char>::empty());
        assert(s@.subrange(0, len as int) + Seq::<char>::empty() =~= s@.subrange(0, len as int));
    }
    len
}

/// The class of a VISA resource address, such as `tcpip` or `asrl`.
pub fn parse_resource_class(resource_address: &str) -> (r: Option<String>)
    ensures
        crate::model::config::opt_string(r) == resource_class_of(resource_address@),
{
    let head = crate::util::text::str_trim(crate::model::config::first_segment_exec(resource_address));
    let n = alpha_prefix_len(head);
    let letters = vstd::string::StrSliceExecFns::substring_char(head, 0, n);
    let class = to_ascii_lowercase(letters);
    if vstd::string::StrSliceExecFns::unicode_len(class.as_str()) == 0 {
        None
    } else {
        Some(class)
    }
}

/// The error of a VISA failure whose backend message is `raw`: lock or
/// busy messages mean a busy resource; failed opens that time out are open
/// time-outs; failed opens or enumerations that name a missing or invalid
/// resource mean it was not found; anything else keeps the given code.
pub open spec fn visa_failure_code(code: ErrorCode, raw: Seq<char>) -> ErrorCode {
    let l = ascii_lower(raw);
    if contains_text(l, "lock"@) || contains_text(l, "busy"@) {
        ErrorCode::VisaResourceBusy
    } else if code == ErrorCode::VisaOpenFailed && (contains_text(l, "timeout"@) || contains_text(l, "tmo"@)) {
        ErrorCode::VisaOpenTimeout
    } else if (code == ErrorCode::VisaOpenFailed || code == ErrorCode::VisaEnumFailed) && (contains_text(
        l,
        "not found"@,
    ) || contains_text(l, "invalid"@)) {
        ErrorCode::VisaResourceNotFound
    } else {
        code
    }
}

/// The category that goes with a classified VISA failure.
pub open spec fn visa_failure_category(code: ErrorCode, category: ErrorCategory, raw: Seq<char>) -> ErrorCategory {
    let l = ascii_lower(raw);
    if contains_text(l, "lock"@) || contains_text(l, "busy"@) {
        ErrorCategory::ResourceBusy
    } else if code == ErrorCode::VisaOpenFailed && (contains_text(l, "timeout"@) || contains_text(l, "tmo"@)) {
        ErrorCategory::ConnectTimeout
    } else if (code == ErrorCode::VisaOpenFailed || code == ErrorCode::VisaEnumFailed) && (contains_text(
        l,
        "not found"@,
    ) || contains_text(l, "invalid"@)) {
        ErrorCategory::InvalidArgument
    } else {
        category
    }
}

/// Details naming the backend and its raw message.
pub open spec fn backend_details(raw: Seq<char>) -> Seq<(Seq<char>, DetailView)> {
    seq![("backend"@, DetailView::Text("visa-rs"@)), ("raw_error"@, DetailView::Text(raw))]
}

fn backend_error(category: ErrorCategory, code: ErrorCode, message: &str, hint: &str, retryable: bool, raw: &str) -> (e:
    DomainError)
    ensures
        e.category == category,
        e.code == code,
        e.retryable == retryable,
        e.message@ == message@,
        e.details@ == backend_details(raw@),
{
    let e = DomainError::new(category, code, message, hint, retryable).with_detail(
        "backend",
        DetailValue::Text("visa-rs".to_owned()),
    ).with_detail("raw_error", DetailValue::Text(raw.to_owned()));
    assert(e.details@ =~= backend_details(raw@));
    e
}

/// Classifies a VISA failure from the operation's code and the backend's
/// raw message.
pub fn map_visa_error(code: ErrorCode, category: ErrorCategory, message: &str, recovery_hint: &str, raw: &str) -> (e:
    DomainError)
    ensures
        e.code == visa_failure_code(code, raw@),
        e.category == visa_failure_category(code, category, raw@),
        !e.retryable,
        e.details@ == backend_details(raw@),
{
    let lowered = to_ascii_lowercase(raw);
    let l = lowered.as_str();
    if str_contains(l, "lock") || str_contains(l, "busy") {
        return backend_error(
            ErrorCategory::ResourceBusy,
            ErrorCode::VisaResourceBusy,
            "VISA resource is busy.",
            "Release the owning instance or close the external instrument session, then retry.",
            false,
            raw,
        );
    }
    let is_open = code == ErrorCode::VisaOpenFailed;
    if is_open && (str_contains(l, "timeout") || str_contains(l, "tmo")) {
        return backend_error(
            ErrorCategory::ConnectTimeout,
            ErrorCode::VisaOpenTimeout,
            "VISA operation timed out.",
            "Check the resource address, device power, and timeout settings, then retry.",
            false,
            raw,
        );
    }
    if (is_open || code == ErrorCode::VisaEnumFailed) && (str_contains(l, "not found") || str_contains(
        l,
        "invalid",
    )) {
        return backend_error(
            ErrorCategory::InvalidArgument,
            ErrorCode::VisaResourceNotFound,
            "VISA resource was not found.",
            "Use port_scan(type=Visa) to confirm the address or correct the resource_address.",
            false,
            raw,
        );
    }
    backend_error(category, code, message, recovery_hint, false, raw)
}

/// A failed VISA read: a time-out kind or a message naming a time-out is a
/// read time-out; anything else is a read failure.
pub fn map_io_read_error(timed_out_kind: bool, raw: &str) -> (e: DomainError)
    ensures
        ({
            let l = ascii_lower(raw@);
            let timeout = timed_out_kind || contains_text(l, "timeout"@) || contains_text(
                l,
                "timed out"@,
            ) || contains_text(l, "tmo"@);
            &&& e.code == (if timeout { ErrorCode::ReadTimeout } else { ErrorCode::VisaReadFailed })
            &&& e.category == (if timeout {
                ErrorCategory::ReadTimeout
            } else {
                ErrorCategory::WriteFailed
            })
            &&& e.retryable == timeout
            &&& e.details@ == backend_details(raw@)
        }),
{
    let lowered = to_ascii_lowercase(raw);
    let l = lowered.as_str();
    if timed_out_kind || str_contains(l, "timeout") || str_contains(l, "timed out") || str_contains(l, "tmo") {
        return backend_error(
            ErrorCategory::ReadTimeout,
            ErrorCode::ReadTimeout,
            "No data was available before the VISA read timeout elapsed.",
            "Retry, increase io_timeout_ms, or check that the device sent data.",
            true,
            raw,
        );
    }
    backend_error(
        ErrorCategory::WriteFailed,
        ErrorCode::VisaReadFailed,
        "VISA read failed.",
        "Check read timeout, termination settings, and device output, then retry.",
        false,
        raw,
    )
}

/// A failed VISA write, with the backend's message.
pub fn map_io_write_error(raw: &str) -> (e: DomainError)
    ensures
        e.category == ErrorCategory::WriteFailed,
        e.code == ErrorCode::VisaWriteFailed,
        !e.retryable,
        e.details@ == backend_details(raw@),
{
    backend_error(
        ErrorCategory::WriteFailed,
        ErrorCode::VisaWriteFailed,
        "VISA write failed.",
        "Check termination settings, timeout, and resource state, then retry.",
        false,
        raw,
    )
}

} // verus!
