//! Recognising a probe response: checked matchers and how they decide.
use vstd::prelude::*;

use crate::model::config::{opt_string, PayloadEncoding};
use crate::model::data::PayloadSummary;
use crate::model::error::{error_text, DetailValue, DetailView, DomainError, ErrorCategory, ErrorCode};
use crate::model::limits::RuntimeLimits;
use crate::probe::params::ProbeMatcherParams;
use crate::util::encoding::{hex_chars, hex_outcome, hex_to_bytes_with_limit, vec_result_view};
use crate::util::text::{
    ascii_upper, concat, contains_text, occurs_at, str_contains, string_from_utf8_lossy, to_ascii_uppercase,
    utf8_lossy,
};

verus! {

/// What `regex::Regex::new` reports for `pattern`: `None` when it compiles,
/// or the text of its error.
pub uninterp spec fn regex_compile_error(pattern: Seq<char>) -> Option<Seq<char>>;

/// Whether the compiled `pattern` matches anywhere in `haystack`.
pub uninterp spec fn regex_match(pattern: Seq<char>, haystack: Seq<char>) -> bool;

/// Compiles `pattern` with `regex::Regex::new` and keeps only whether that
/// failed, and the error's text when it did.
#[verifier::external_body]
fn regex_check(pattern: &str) -> (r: Option<String>)
    ensures
        opt_string(r) == regex_compile_error(pattern@),
{
    match regex::Regex::new(pattern) {
        Ok(_) => None,
        Err(e) => Some(e.to_string()),
    }
}

/// `regex::Regex::is_match` of the compiled `pattern` on `haystack`; the
/// pattern is compiled by `regex::Regex::new` first, which succeeds by the
/// precondition.
#[verifier::external_body]
fn regex_is_match(pattern: &str, haystack: &str) -> (b: bool)
    requires
        regex_compile_error(pattern@) is None,
    ensures
        b == regex_match(pattern@, haystack@),
{
    match regex::Regex::new(pattern) {
        Ok(re) => re.is_match(haystack),
        Err(_) => false,
    }
}

/// A checked matcher: hex needles are decoded and regex patterns compile.
#[derive(Debug, Clone)]
pub enum Matcher {
    Contains(String),
    HexContains(Vec<u8>),
    Regex(String),
    HexRegex(String),
    AnyResponse,
}

impl Matcher {
    pub open spec fn wf(&self) -> bool {
        match self {
            Matcher::HexContains(n) => n@.len() > 0,
            Matcher::Regex(p) => regex_compile_error(p@) is None,
            Matcher::HexRegex(p) => regex_compile_error(p@) is None,
            _ => true,
        }
    }

    pub open spec fn spec_name(&self) -> Seq<char> {
        match self {
            Matcher::Contains(_) => "contains"@,
            Matcher::HexContains(_) => "hex_contains"@,
            Matcher::Regex(_) => "regex"@,
            Matcher::HexRegex(_) => "hex_regex"@,
            Matcher::AnyResponse => "any_response"@,
        }
    }

    /// The snake-case name of the matcher kind.
    pub fn name(&self) -> (s: &'static str)
        ensures
            s@ == self.spec_name(),
    {
        proof {
            reveal_strlit("contains");
            reveal_strlit("hex_contains");
            reveal_strlit("regex");
            reveal_strlit("hex_regex");
            reveal_strlit("any_response");
        }
        match self {
            Matcher::Contains(_) => "contains",
            Matcher::HexContains(_) => "hex_contains",
            Matcher::Regex(_) => "regex",
            Matcher::HexRegex(_) => "hex_regex",
            Matcher::AnyResponse => "any_response",
        }
    }
}

/// `needle` occurs as a contiguous run of `hay`.
pub open spec fn occurs_bytes(hay: Seq<u8>, needle: Seq<u8>) -> bool {
    exists|i: int|
        0 <= i && i + needle.len() <= hay.len() && #[trigger] hay.subrange(i, i + needle.len())
            == needle
}

/// Whether a response satisfies a matcher: text matchers read the response
/// as lossy UTF-8, hex regexes read its lower-case hex or the upper-case form.
pub open spec fn response_matches(m: Matcher, response: Seq<u8>) -> bool {
    match m {
        Matcher::Contains(v) => contains_text(utf8_lossy(response), v@),
        Matcher::Regex(p) => regex_match(p@, utf8_lossy(response)),
        Matcher::HexRegex(p) => regex_match(p@, hex_chars(response)) || regex_match(
            p@,
            ascii_upper(hex_chars(response)),
        ),
        Matcher::HexContains(n) => occurs_bytes(response, n@),
        Matcher::AnyResponse => response.len() > 0,
    }
}

/// A hex regex reads the response's hex in both cases: a pattern that
/// matches the lower-case hex, or the upper-case hex, accepts the response,
/// and nothing else does.
pub proof fn hex_regex_reads_either_case(p: String, response: Seq<u8>)
    ensures
        regex_match(p@, hex_chars(response)) ==> response_matches(Matcher::HexRegex(p), response),
        regex_match(p@, ascii_upper(hex_chars(response))) ==> response_matches(Matcher::HexRegex(p), response),
        response_matches(Matcher::HexRegex(p), response) ==> regex_match(p@, hex_chars(response)) || regex_match(
            p@,
            ascii_upper(hex_chars(response)),
        ),
{
}

/// A byte needle is found wherever it occurs in the response, and never in
/// a response shorter than itself.
pub proof fn byte_needle_found_where_it_occurs(needle: Vec<u8>, before: Seq<u8>, after: Seq<u8>, short: Seq<u8>)
    ensures
        response_matches(Matcher::HexContains(needle), before + needle@ + after),
        short.len() < needle@.len() ==> !response_matches(Matcher::HexContains(needle), short),
{
    let r = before + needle@ + after;
    let i = before.len() as int;
    assert(r.subrange(i, i + needle@.len()) =~= needle@);
}

/// A text needle is found wherever it occurs in the lossy UTF-8 reading of
/// the response, and never in a reading shorter than itself.
pub proof fn text_needle_found_where_it_occurs(value: String, response: Seq<u8>, before: Seq<char>, after: Seq<char>)
    ensures
        utf8_lossy(response) == before + value@ + after ==> response_matches(Matcher::Contains(value), response),
        utf8_lossy(response).len() < value@.len() ==> !response_matches(Matcher::Contains(value), response),
{
    if utf8_lossy(response) == before + value@ + after {
        let h = utf8_lossy(response);
        let i = before.len() as int;
        assert(h.subrange(i, i + value@.len()) =~= value@);
        assert(occurs_at(h, value@, i));
    }
}

/// A text regex reads the response as lossy UTF-8; any response that is not
/// empty satisfies `any_response`, and an empty one does not.
pub proof fn regex_and_any_response_readings(p: String, response: Seq<u8>)
    ensures
        response_matches(Matcher::Regex(p), response) == regex_match(p@, utf8_lossy(response)),
        response_matches(Matcher::AnyResponse, response) == (response.len() > 0),
{
}

fn window_equals(hay: &[u8], start: usize, needle: &[u8]) -> (b: bool)
    requires
        start + needle@.len() <= hay@.len(),
    ensures
        b == (hay@.subrange(start as int, start + needle@.len()) == needle@),
{
    let n = needle.len();
    let h = hay.len();
    let mut k: usize = 0;
    while k < n
        invariant
            n == needle@.len(),
            h == hay@.len(),
            start + n <= h,
            k <= n,
            forall|j: int| 0 <= j < k ==> hay@[start + j] == needle@[j],
        decreases n - k,
    {
        if hay[start + k] != needle[k] {
            assert(hay@.subrange(start as int, start + n)[k as int] != needle@[k as int]);
            return false;
        }
        k = k + 1;
    }
    assert(hay@.subrange(start as int, start + n) =~= needle@);
    true
}

fn contains_bytes(hay: &[u8], needle: &[u8]) -> (b: bool)
    requires
        needle@.len() > 0,
    ensures
        b == occurs_bytes(hay@, needle@),
{
    let n = needle.len();
    let h = hay.len();
    if n > h {
        return false;
    }
    let mut i: usize = 0;
    while i <= h - n
        invariant
            n == needle@.len(),
            h == hay@.len(),
            0 < n <= h,
            i <= h - n + 1,
            forall|j: int| 0 <= j < i ==> #[trigger] hay@.subrange(j, j + n) != needle@,
        decreases h - n + 1 - i,
    {
        if window_equals(hay, i, needle) {
            return true;
        }
        i = i + 1;
    }
    assert forall|j: int| 0 <= j && j + n <= h implies #[trigger] hay@.subrange(j, j + n) != needle@ by {
        assert(j < i);
    }
    false
}

/// The lower-case hex of at most `max_preview_bytes` of `response`.
pub fn hex_preview(response: &[u8], max_preview_bytes: usize) -> (s: String)
    ensures
        s@ == hex_chars(
            response@.take(
                if response@.len() < max_preview_bytes {
                    response@.len() as int
                } else {
                    max_preview_bytes as int
                },
            ),
        ),
{
    PayloadSummary::from_bytes(response, PayloadEncoding::Hex, max_preview_bytes, false).preview
}

/// Decides whether `response` satisfies `matcher`.
pub fn matches_response(matcher: &Matcher, response: &[u8]) -> (b: bool)
    requires
        matcher.wf(),
    ensures
        b == response_matches(*matcher, response@),
{
    match matcher {
        Matcher::Contains(value) => {
            let text = string_from_utf8_lossy(response);
            str_contains(text.as_str(), value.as_str())
        },
        Matcher::Regex(pattern) => {
            let text = string_from_utf8_lossy(response);
            regex_is_match(pattern.as_str(), text.as_str())
        },
        Matcher::HexRegex(pattern) => {
            let hex = hex_preview(response, response.len());
            assert(response@.take(response@.len() as int) =~= response@);
            if regex_is_match(pattern.as_str(), hex.as_str()) {
                true
            } else {
                let upper = to_ascii_uppercase(hex.as_str());
                regex_is_match(pattern.as_str(), upper.as_str())
            }
        },
        Matcher::HexContains(needle) => contains_bytes(response, needle.as_slice()),
        Matcher::AnyResponse => response.len() > 0,
    }
}

/// The invalid-range error for a probe field.
pub open spec fn invalid_field_error(e: DomainError, field: Seq<char>, message: Seq<char>) -> bool {
    &&& e.category == ErrorCategory::InvalidArgument
    &&& e.code == ErrorCode::InvalidRange
    &&& !e.retryable
    &&& e.message@ == message
    &&& e.recovery_hint@ == "Correct the field and retry."@
    &&& e.details@ == seq![("field"@, DetailView::Text(field))]
}

/// A field of the probe request is empty or out of place.
pub fn invalid_field(field: &str, message: &str) -> (e: DomainError)
    ensures
        invalid_field_error(e, field@, message@),
{
    let e = DomainError::invalid_argument(ErrorCode::InvalidRange, message, "Correct the field and retry.")
        .with_detail("field", DetailValue::Text(field.to_owned()));
    assert(e.details@ =~= seq![("field"@, DetailView::Text(field@))]);
    e
}

/// How a regex matcher value is checked: not empty, at most `max` bytes,
/// and compiling; gives the pattern. `name` is the matcher's name, which the
/// messages start with.
pub open spec fn regex_outcome(name: Seq<char>, value: Seq<char>, max: int, r: Result<String, DomainError>) -> bool {
    if value.len() == 0 {
        r matches Err(e) && invalid_field_error(
            e,
            "matcher.value"@,
            "regex matcher value must not be empty."@,
        )
    } else if encode_len(value) > max {
        r matches Err(e) && e.category == ErrorCategory::InvalidArgument && e.code
            == ErrorCode::InvalidRange && !e.retryable && e.details@ == seq![
            ("field"@, DetailView::Text("matcher.value"@)),
            ("limit"@, DetailView::Number(max)),
            ("actual"@, DetailView::Number(encode_len(value))),
        ] && error_text(
            e,
            name + " matcher value exceeds regex_pattern_max_bytes."@,
            "Shorten the regex pattern or raise regex_pattern_max_bytes within the allowed hard limit."@,
        )
    } else {
        match regex_compile_error(value) {
            Some(raw) => r matches Err(e) && e.category == ErrorCategory::InvalidArgument && e.code
                == ErrorCode::ProtocolFrameInvalid && !e.retryable && e.details@ == seq![
                ("field"@, DetailView::Text("matcher.value"@)),
                ("raw_error"@, DetailView::Text(raw)),
            ] && error_text(
                e,
                name + " matcher value is not a valid Rust regex pattern."@,
                "Fix the regex pattern and retry. Rust regex does not support look-around or backreferences."@,
            ),
            None => r matches Ok(p) && p@ == value,
        }
    }
}

proof fn lemma_encode_nonempty(s: Seq<char>)
    requires
        s.len() > 0,
    ensures
        vstd::utf8::encode_utf8(s).len() > 0,
{
    assert(vstd::utf8::encode_scalar(s[0] as u32).len() >= 1);
}

/// The UTF-8 length of a text.
pub open spec fn encode_len(s: Seq<char>) -> int {
    vstd::utf8::encode_utf8(s).len() as int
}

/// Checks a regex matcher value (`matcher_name` is `regex` or `hex_regex`).
pub fn compile_probe_regex(value: String, regex_pattern_max_bytes: usize, matcher_name: &str) -> (r:
    Result<String, DomainError>)
    ensures
        regex_outcome(matcher_name@, value@, regex_pattern_max_bytes as int, r),
{
    if value.as_str().is_empty() {
        return Err(invalid_field("matcher.value", "regex matcher value must not be empty."));
    }
    let len = value.as_str().as_bytes().len();
    if len > regex_pattern_max_bytes {
        let message = concat(matcher_name, " matcher value exceeds regex_pattern_max_bytes.");
        let e = DomainError::invalid_argument(
            ErrorCode::InvalidRange,
            message.as_str(),
            "Shorten the regex pattern or raise regex_pattern_max_bytes within the allowed hard limit.",
        ).with_detail("field", DetailValue::Text("matcher.value".to_owned())).with_detail(
            "limit",
            DetailValue::Number(regex_pattern_max_bytes as u64),
        ).with_detail("actual", DetailValue::Number(len as u64));
        assert(e.details@ =~= seq![
            ("field"@, DetailView::Text("matcher.value"@)),
            ("limit"@, DetailView::Number(regex_pattern_max_bytes as int)),
            ("actual"@, DetailView::Number(encode_len(value@))),
        ]);
        return Err(e);
    }
    match regex_check(value.as_str()) {
        Some(raw) => {
            let message = concat(matcher_name, " matcher value is not a valid Rust regex pattern.");
            let e = DomainError::invalid_argument(
                ErrorCode::ProtocolFrameInvalid,
                message.as_str(),
                "Fix the regex pattern and retry. Rust regex does not support look-around or backreferences.",
            ).with_detail("field", DetailValue::Text("matcher.value".to_owned())).with_detail(
                "raw_error",
                DetailValue::Text(raw),
            );
            assert(e.details@ =~= seq![
                ("field"@, DetailView::Text("matcher.value"@)),
                ("raw_error"@, DetailView::Text(regex_compile_error(value@).unwrap())),
            ]);
            Err(e)
        },
        None => Ok(value),
    }
}

/// How matcher parameters are checked into a [`Matcher`].
pub open spec fn matcher_outcome(
    params: ProbeMatcherParams,
    pull_max_bytes: int,
    regex_max: int,
    r: Result<Matcher, DomainError>,
) -> bool {
    match params {
        ProbeMatcherParams::Contains { value } => if value@.len() == 0 {
            r matches Err(e) && invalid_field_error(
                e,
                "matcher.value"@,
                "contains matcher value must not be empty."@,
            )
        } else {
            r matches Ok(Matcher::Contains(v)) && v@ == value@
        },
        ProbeMatcherParams::HexContains { value } => if value@.len() == 0 {
            r matches Err(e) && invalid_field_error(
                e,
                "matcher.value"@,
                "hex_contains matcher value must not be empty."@,
            )
        } else {
            exists|d: Result<Seq<u8>, DomainError>|
                #[trigger] hex_outcome(vstd::utf8::encode_utf8(value@), "matcher.value"@, pull_max_bytes, d)
                    && match d {
                    Ok(b) => r matches Ok(Matcher::HexContains(n)) && n@ == b,
                    Err(e) => r == Err::<Matcher, DomainError>(e),
                }
        },
        ProbeMatcherParams::Regex { value } => exists|p: Result<String, DomainError>|
            #[trigger] regex_outcome("regex"@, value@, regex_max, p) && match p {
                Ok(s) => r matches Ok(Matcher::Regex(q)) && q@ == s@,
                Err(e) => r == Err::<Matcher, DomainError>(e),
            },
        ProbeMatcherParams::HexRegex { value } => exists|p: Result<String, DomainError>|
            #[trigger] regex_outcome("hex_regex"@, value@, regex_max, p) && match p {
                Ok(s) => r matches Ok(Matcher::HexRegex(q)) && q@ == s@,
                Err(e) => r == Err::<Matcher, DomainError>(e),
            },
        ProbeMatcherParams::AnyResponse => r matches Ok(Matcher::AnyResponse),
    }
}

/// Checks matcher parameters: values must not be empty, hex needles must
/// decode within the pull limit, and regexes must compile within their
/// byte limit.
pub fn validate_matcher(
    matcher: ProbeMatcherParams,
    runtime_limits: &RuntimeLimits,
    regex_pattern_max_bytes: usize,
) -> (r: Result<Matcher, DomainError>)
    ensures
        matcher_outcome(
            matcher,
            runtime_limits.pull_max_bytes as int,
            regex_pattern_max_bytes as int,
            r,
        ),
        r matches Ok(m) ==> m.wf(),
{
    match matcher {
        ProbeMatcherParams::Contains { value } => {
            if value.as_str().is_empty() {
                Err(invalid_field("matcher.value", "contains matcher value must not be empty."))
            } else {
                Ok(Matcher::Contains(value))
            }
        },
        ProbeMatcherParams::HexContains { value } => {
            if value.as_str().is_empty() {
                Err(invalid_field("matcher.value", "hex_contains matcher value must not be empty."))
            } else {
                let decoded = hex_to_bytes_with_limit(
                    value.as_str(),
                    "matcher.value",
                    runtime_limits.pull_max_bytes,
                );
                let ghost d = vec_result_view(decoded);
                assert(hex_outcome(vstd::utf8::encode_utf8(value@), "matcher.value"@, runtime_limits.pull_max_bytes as int, d));
                match decoded {
                    Ok(bytes) => {
                        proof {
                            lemma_encode_nonempty(value@);
                        }
                        Ok(Matcher::HexContains(bytes))
                    },
                    Err(e) => Err(e),
                }
            }
        },
        ProbeMatcherParams::Regex { value } => {
            let ghost v = value@;
            let p = compile_probe_regex(value, regex_pattern_max_bytes, "regex");
            assert(regex_outcome("regex"@, v, regex_pattern_max_bytes as int, p));
            match p {
                Ok(s) => Ok(Matcher::Regex(s)),
                Err(e) => Err(e),
            }
        },
        ProbeMatcherParams::HexRegex { value } => {
            let ghost v = value@;
            let p = compile_probe_regex(value, regex_pattern_max_bytes, "hex_regex");
            assert(regex_outcome("hex_regex"@, v, regex_pattern_max_bytes as int, p));
            match p {
                Ok(s) => Ok(Matcher::HexRegex(s)),
                Err(e) => Err(e),
            }
        },
        ProbeMatcherParams::AnyResponse => Ok(Matcher::AnyResponse),
    }
}

} // verus!
