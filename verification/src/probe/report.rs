//! What a probe reports: matches, failure samples, counts, and how the
//! results of each resource are folded into one answer.
use vstd::prelude::*;

use crate::model::config::{PayloadEncoding, SerialConfig, VisaConfig};
use crate::model::data::{preview_text, PayloadSummary};
use crate::model::error::{error_code_name, field_views, DetailValue, DetailView, DomainError, ErrorCategory, ErrorCode};
use crate::probe::matcher::{matches_response, response_matches, Matcher};
use crate::probe::params::{attempt_status_name, FailureOutputParam, ProbeAttemptStatus, ProbeTarget};
use crate::probe::request::ProbeRequest;
use crate::transport::common::TransportError;
use crate::util::text::{contains_text, str_contains};

verus! {

/// The candidate settings an attempt used.
#[derive(Debug, Clone)]
pub enum ProbeConfig {
    Serial(SerialConfig),
    Visa(VisaConfig),
}

/// A candidate whose response matched.
#[derive(Debug, Clone)]
pub struct ProbeSuccess {
    pub target_type: ProbeTarget,
    pub resource: String,
    pub config: ProbeConfig,
    pub matched_by: String,
    pub sent_bytes: usize,
    pub recv_bytes: usize,
    pub response_preview: String,
    pub response_hex: String,
    pub truncated: bool,
    pub duration_ms: u64,
}

/// A candidate that did not match, with what is known of why.
#[derive(Debug, Clone)]
pub struct ProbeFailureSample {
    pub target_type: ProbeTarget,
    pub resource: String,
    pub config: ProbeConfig,
    pub status: ProbeAttemptStatus,
    pub error_code: Option<ErrorCode>,
    pub message: Option<String>,
    pub recovery_hint: Option<String>,
    pub retryable: Option<bool>,
    pub recv_bytes: Option<usize>,
    pub response_preview: Option<String>,
    pub response_hex: Option<String>,
    pub truncated: bool,
}

/// How many bytes of a response a preview shows.
pub open spec fn shown(len: int, max: int) -> int {
    if len < max {
        len
    } else {
        max
    }
}

/// Records a match, with text and hex previews of at most `max_preview_bytes`.
pub fn success(
    target_type: ProbeTarget,
    resource: &str,
    config: ProbeConfig,
    matched_by: &str,
    sent_bytes: usize,
    response: &[u8],
    max_preview_bytes: usize,
    duration_ms: u64,
) -> (s: ProbeSuccess)
    ensures
        s.target_type == target_type,
        s.resource@ == resource@,
        s.config == config,
        s.matched_by@ == matched_by@,
        s.sent_bytes == sent_bytes,
        s.recv_bytes == response@.len(),
        s.response_preview@ == preview_text(
            response@.take(shown(response@.len() as int, max_preview_bytes as int)),
            PayloadEncoding::Text,
        ),
        s.response_hex@ == preview_text(
            response@.take(shown(response@.len() as int, max_preview_bytes as int)),
            PayloadEncoding::Hex,
        ),
        s.truncated == (response@.len() > max_preview_bytes),
        s.duration_ms == duration_ms,
{
    let text = PayloadSummary::from_bytes(response, PayloadEncoding::Text, max_preview_bytes, false);
    let hex = PayloadSummary::from_bytes(response, PayloadEncoding::Hex, max_preview_bytes, false);
    ProbeSuccess {
        target_type,
        resource: resource.to_owned(),
        config,
        matched_by: matched_by.to_owned(),
        sent_bytes,
        recv_bytes: response.len(),
        response_preview: text.preview,
        response_hex: hex.preview,
        truncated: text.truncated || hex.truncated,
        duration_ms,
    }
}

pub open spec fn opt_text(o: Option<String>) -> Option<Seq<char>> {
    match o {
        Some(s) => Some(s@),
        None => None,
    }
}

/// Records a failed attempt, previewing the response when there was one.
pub fn failure_sample(
    target_type: ProbeTarget,
    resource: &str,
    config: ProbeConfig,
    status: ProbeAttemptStatus,
    error_code: Option<ErrorCode>,
    message: Option<String>,
    recovery_hint: Option<String>,
    retryable: Option<bool>,
    response: Option<&[u8]>,
    max_preview_bytes: usize,
) -> (f: ProbeFailureSample)
    ensures
        f.target_type == target_type,
        f.resource@ == resource@,
        f.config == config,
        f.status == status,
        f.error_code == error_code,
        opt_text(f.message) == opt_text(message),
        opt_text(f.recovery_hint) == opt_text(recovery_hint),
        f.retryable == retryable,
        match response {
            Some(b) => {
                let head = b@.take(shown(b@.len() as int, max_preview_bytes as int));
                &&& f.recv_bytes == Some(b@.len() as usize)
                &&& opt_text(f.response_preview) == Some(preview_text(head, PayloadEncoding::Text))
                &&& opt_text(f.response_hex) == Some(preview_text(head, PayloadEncoding::Hex))
                &&& f.truncated == (b@.len() > max_preview_bytes)
            },
            None => f.recv_bytes is None && f.response_preview is None && f.response_hex is None
                && !f.truncated,
        },
{
    match response {
        Some(bytes) => {
            let text = PayloadSummary::from_bytes(bytes, PayloadEncoding::Text, max_preview_bytes, false);
            let hex = PayloadSummary::from_bytes(bytes, PayloadEncoding::Hex, max_preview_bytes, false);
            ProbeFailureSample {
                target_type,
                resource: resource.to_owned(),
                config,
                status,
                error_code,
                message,
                recovery_hint,
                retryable,
                recv_bytes: Some(bytes.len()),
                response_preview: Some(text.preview),
                response_hex: Some(hex.preview),
                truncated: text.truncated || hex.truncated,
            }
        },
        None => ProbeFailureSample {
            target_type,
            resource: resource.to_owned(),
            config,
            status,
            error_code,
            message,
            recovery_hint,
            retryable,
            recv_bytes: None,
            response_preview: None,
            response_hex: None,
            truncated: false,
        },
    }
}

/// Records an attempt that failed with `error`.
pub fn error_failure(
    target_type: ProbeTarget,
    resource: &str,
    config: ProbeConfig,
    status: ProbeAttemptStatus,
    error: DomainError,
) -> (f: ProbeFailureSample)
    ensures
        f.target_type == target_type,
        f.resource@ == resource@,
        f.config == config,
        f.status == status,
        f.error_code == Some(error.code),
        opt_text(f.message) == Some(error.message@),
        opt_text(f.recovery_hint) == Some(error.recovery_hint@),
        f.retryable == Some(error.retryable),
        f.recv_bytes is None,
        f.response_preview is None,
        f.response_hex is None,
        !f.truncated,
{
    failure_sample(
        target_type,
        resource,
        config,
        status,
        Some(error.code),
        Some(error.message),
        Some(error.recovery_hint),
        Some(error.retryable),
        None,
        0,
    )
}

/// The hint given for a serial port that was reported missing.
pub open spec fn transient_serial_hint() -> Seq<char> {
    "For serial probe this can be a transient open/enumeration result under concurrent probing; rerun port_scan, retry the specific port, or lower max_concurrency."@
}

/// A transport failure as a probe error: retryable unless fatal, with a
/// hint about transient enumeration when a serial port was not found.
pub fn transport_error_to_domain(error: TransportError) -> (e: DomainError)
    ensures
        e.category == error.category,
        e.code == error.code,
        e.message@ == error.message@,
        e.retryable == !error.fatal,
        e.details@.len() == 0,
        (error.code == ErrorCode::InvalidAddress && contains_text(error.message@, "serial port was not found"@))
            ==> e.recovery_hint@ == transient_serial_hint(),
        !(error.code == ErrorCode::InvalidAddress && contains_text(error.message@, "serial port was not found"@))
            ==> e.recovery_hint@ == "Check the resource and retry with adjusted probe settings."@,
{
    let hint = if error.code == ErrorCode::InvalidAddress && str_contains(
        error.message.as_str(),
        "serial port was not found",
    ) {
        "For serial probe this can be a transient open/enumeration result under concurrent probing; rerun port_scan, retry the specific port, or lower max_concurrency."
    } else {
        "Check the resource and retry with adjusted probe settings."
    };
    DomainError::new(error.category, error.code, error.message.as_str(), hint, !error.fatal)
}

/// What one candidate attempt gave back.
#[derive(Debug)]
pub enum CandidateAttempt {
    Response { sent_bytes: usize, response: Vec<u8> },
    Error { status: ProbeAttemptStatus, error: DomainError },
}

/// The attempts made on one resource.
#[derive(Debug)]
pub struct ResourceProbeResult {
    pub successes: Vec<ProbeSuccess>,
    pub failures: Vec<ProbeFailureSample>,
    pub attempted: usize,
    pub timed_out: usize,
    pub skipped: usize,
}

/// The hint given when a response did not match.
pub open spec fn matcher_miss_hint() -> Seq<char> {
    "Use response_hex/response_preview to refine the matcher, or use hex_regex for binary protocols."@
}

impl ResourceProbeResult {
    pub fn new() -> (r: Self)
        ensures
            r.successes@.len() == 0,
            r.failures@.len() == 0,
            r.attempted == 0,
            r.timed_out == 0,
            r.skipped == 0,
    {
        ResourceProbeResult {
            successes: Vec::new(),
            failures: Vec::new(),
            attempted: 0,
            timed_out: 0,
            skipped: 0,
        }
    }

    /// Records one candidate attempt on `resource` and says whether to stop
    /// trying the resource: a matching response is a success (and stops when
    /// the request stops after the first success per resource); another
    /// response is a matcher miss; an error is a failure, counted as timed
    /// out when it is a read time-out.
    pub fn record_attempt(
        &mut self,
        target_type: ProbeTarget,
        resource: &str,
        config: ProbeConfig,
        request: &ProbeRequest,
        attempt: CandidateAttempt,
        duration_ms: u64,
    ) -> (stop: bool)
        requires
            request.wf(),
            old(self).attempted < usize::MAX,
            old(self).timed_out < usize::MAX,
        ensures
            final(self).attempted == old(self).attempted + 1,
            final(self).skipped == old(self).skipped,
            match attempt {
                CandidateAttempt::Response { sent_bytes, response } => {
                    &&& final(self).timed_out == old(self).timed_out
                    &&& if response_matches(request.matcher, response@) {
                        &&& final(self).failures@ == old(self).failures@
                        &&& final(self).successes@.len() == old(self).successes@.len() + 1
                        &&& final(self).successes@.drop_last() == old(self).successes@
                        &&& final(self).successes@.last().config == config
                        &&& final(self).successes@.last().sent_bytes == sent_bytes
                        &&& final(self).successes@.last().recv_bytes == response@.len()
                        &&& final(self).successes@.last().matched_by@ == request.matcher.spec_name()
                        &&& final(self).successes@.last().duration_ms == duration_ms
                        &&& final(self).successes@.last().resource@ == resource@
                        &&& stop == request.limits.stop_after_first_success_per_resource
                    } else {
                        &&& final(self).successes@ == old(self).successes@
                        &&& final(self).failures@.len() == old(self).failures@.len() + 1
                        &&& final(self).failures@.drop_last() == old(self).failures@
                        &&& final(self).failures@.last().status == ProbeAttemptStatus::MatcherMiss
                        &&& final(self).failures@.last().error_code is None
                        &&& final(self).failures@.last().retryable == Some(false)
                        &&& final(self).failures@.last().recv_bytes == Some(response@.len() as usize)
                        &&& final(self).failures@.last().config == config
                        &&& opt_text(final(self).failures@.last().recovery_hint) == Some(matcher_miss_hint())
                        &&& !stop
                    }
                },
                CandidateAttempt::Error { status, error } => {
                    &&& final(self).timed_out == old(self).timed_out + (if error.code
                        == ErrorCode::ReadTimeout {
                        1int
                    } else {
                        0
                    })
                    &&& final(self).successes@ == old(self).successes@
                    &&& final(self).failures@.len() == old(self).failures@.len() + 1
                    &&& final(self).failures@.drop_last() == old(self).failures@
                    &&& final(self).failures@.last().status == status
                    &&& final(self).failures@.last().error_code == Some(error.code)
                    &&& final(self).failures@.last().retryable == Some(error.retryable)
                    &&& final(self).failures@.last().config == config
                    &&& !stop
                },
            },
    {
        self.attempted = self.attempted + 1;
        match attempt {
            CandidateAttempt::Response { sent_bytes, response } => {
                if matches_response(&request.matcher, response.as_slice()) {
                    let s = success(
                        target_type,
                        resource,
                        config,
                        request.matcher.name(),
                        sent_bytes,
                        response.as_slice(),
                        request.limits.response_max_bytes,
                        duration_ms,
                    );
                    let ghost before = self.successes@;
                    self.successes.push(s);
                    assert(self.successes@.drop_last() == before);
                    request.limits.stop_after_first_success_per_resource
                } else {
                    let f = failure_sample(
                        target_type,
                        resource,
                        config,
                        ProbeAttemptStatus::MatcherMiss,
                        None,
                        Some("response did not match probe matcher".to_owned()),
                        Some(
                            "Use response_hex/response_preview to refine the matcher, or use hex_regex for binary protocols.".to_owned(),
                        ),
                        Some(false),
                        Some(response.as_slice()),
                        request.limits.response_max_bytes,
                    );
                    let ghost before = self.failures@;
                    self.failures.push(f);
                    assert(self.failures@.drop_last() == before);
                    false
                }
            },
            CandidateAttempt::Error { status, error } => {
                if error.code == ErrorCode::ReadTimeout {
                    self.timed_out = self.timed_out + 1;
                }
                let f = error_failure(target_type, resource, config, status, error);
                let ghost before = self.failures@;
                self.failures.push(f);
                assert(self.failures@.drop_last() == before);
                false
            },
        }
    }
}

/// The count stored for `key`, or zero.
pub open spec fn count_of(entries: Seq<(String, usize)>, key: Seq<char>) -> int
    decreases entries.len(),
{
    if entries.len() == 0 {
        0
    } else if entries.last().0@ == key {
        entries.last().1 as int
    } else {
        count_of(entries.drop_last(), key)
    }
}

/// No key is counted twice.
pub open spec fn distinct_keys(entries: Seq<(String, usize)>) -> bool {
    forall|i: int, j: int|
        0 <= i < j < entries.len() ==> #[trigger] entries[i].0@ != #[trigger] entries[j].0@
}

proof fn lemma_count_of_at(entries: Seq<(String, usize)>, i: int)
    requires
        distinct_keys(entries),
        0 <= i < entries.len(),
    ensures
        count_of(entries, entries[i].0@) == entries[i].1,
    decreases entries.len(),
{
    if i < entries.len() - 1 {
        assert(entries.last().0@ != entries[i].0@);
        assert(entries.drop_last()[i] == entries[i]);
        lemma_count_of_at(entries.drop_last(), i);
    }
}

proof fn lemma_count_of_absent(entries: Seq<(String, usize)>, key: Seq<char>)
    requires
        forall|i: int| 0 <= i < entries.len() ==> #[trigger] entries[i].0@ != key,
    ensures
        count_of(entries, key) == 0,
    decreases entries.len(),
{
    if entries.len() > 0 {
        assert(entries.last().0@ != key);
        assert forall|i: int| 0 <= i < entries.drop_last().len() implies #[trigger] entries.drop_last()[i].0@
            != key by {
            assert(entries.drop_last()[i] == entries[i]);
        }
        lemma_count_of_absent(entries.drop_last(), key);
    }
}

proof fn lemma_count_of_key(entries: Seq<(String, usize)>, key: Seq<char>)
    requires
        distinct_keys(entries),
    ensures
        (exists|i: int| 0 <= i < entries.len() && #[trigger] entries[i].0@ == key) ==> exists|i: int|
            0 <= i < entries.len() && entries[i].0@ == key && count_of(entries, key) == entries[i].1,
        (forall|i: int| 0 <= i < entries.len() ==> #[trigger] entries[i].0@ != key) ==> count_of(
            entries,
            key,
        ) == 0,
{
    if exists|i: int| 0 <= i < entries.len() && #[trigger] entries[i].0@ == key {
        let i = choose|i: int| 0 <= i < entries.len() && #[trigger] entries[i].0@ == key;
        lemma_count_of_at(entries, i);
    } else {
        lemma_count_of_absent(entries, key);
    }
}

/// Adds one to the count of `key` (saturating), adding the key when new.
pub fn bump_count(entries: &mut Vec<(String, usize)>, key: &str)
    requires
        distinct_keys(old(entries)@),
    ensures
        distinct_keys(final(entries)@),
        count_of(final(entries)@, key@) == (if count_of(old(entries)@, key@) < usize::MAX {
            count_of(old(entries)@, key@) + 1
        } else {
            count_of(old(entries)@, key@)
        }),
        forall|k: Seq<char>| k != key@ ==> count_of(final(entries)@, k) == count_of(old(entries)@, k),
{
    let ghost e0 = entries@;
    let mut i: usize = 0;
    while i < entries.len()
        invariant
            entries@ == e0,
            e0 == old(entries)@,
            distinct_keys(e0),
            i <= e0.len(),
            forall|j: int| 0 <= j < i ==> #[trigger] e0[j].0@ != key@,
        decreases e0.len() - i,
    {
        if crate::util::text::str_eq(entries[i].0.as_str(), key) {
            let n = entries[i].1;
            proof {
                lemma_count_of_at(e0, i as int);
            }
            if n < usize::MAX {
                let name = entries[i].0.clone();
                entries.set(i, (name, n + 1));
                proof {
                    let e1 = entries@;
                    assert(distinct_keys(e1)) by {
                        assert forall|a: int, b: int| 0 <= a < b < e1.len() implies #[trigger] e1[a].0@
                            != #[trigger] e1[b].0@ by {
                            assert(e1[a].0@ == e0[a].0@);
                            assert(e1[b].0@ == e0[b].0@);
                        }
                    }
                    lemma_count_of_at(e1, i as int);
                    assert(e1[i as int].0@ == key@);
                    assert(count_of(e1, key@) == n + 1);
                    assert(count_of(e0, key@) == n);
                    assert forall|k: Seq<char>| k != key@ implies count_of(e1, k) == count_of(e0, k) by {
                        lemma_count_of_key(e0, k);
                        lemma_count_of_key(e1, k);
                        if exists|j: int| 0 <= j < e1.len() && #[trigger] e1[j].0@ == k {
                            let j = choose|j: int| 0 <= j < e1.len() && #[trigger] e1[j].0@ == k;
                            assert(j != i);
                            lemma_count_of_at(e1, j);
                            lemma_count_of_at(e0, j);
                            assert(e0[j].0@ == k);
                        } else {
                            assert forall|j: int| 0 <= j < e0.len() implies #[trigger] e0[j].0@ != k by {
                                assert(e1[j].0@ == e0[j].0@);
                            }
                        }
                    }
                }
            }
            return;
        }
        i = i + 1;
    }
    proof {
        lemma_count_of_absent(e0, key@);
    }
    entries.push((key.to_owned(), 1));
    proof {
        let e1 = entries@;
        assert(e1.drop_last() =~= e0);
        assert(distinct_keys(e1)) by {
            assert forall|a: int, b: int| 0 <= a < b < e1.len() implies #[trigger] e1[a].0@
                != #[trigger] e1[b].0@ by {
                if b == e1.len() - 1 {
                    assert(e1[a] == e0[a]);
                } else {
                    assert(e1[a] == e0[a]);
                    assert(e1[b] == e0[b]);
                }
            }
        }
    }
}

/// The totals of a probe run.
#[derive(Debug, Clone)]
pub struct ProbeSummary {
    pub resources_discovered: usize,
    pub resources_attempted: usize,
    pub candidates_attempted: usize,
    pub matched_count: usize,
    pub failed_count: usize,
    pub skipped_count: usize,
    pub timed_out_count: usize,
    pub failure_status_counts: Vec<(String, usize)>,
    pub failure_error_counts: Vec<(String, usize)>,
    pub family_errors: Vec<(ProbeTarget, DomainError)>,
    pub duration_ms: u64,
    pub stopped_after_first_total_success: bool,
}

impl ProbeSummary {
    pub open spec fn wf(&self) -> bool {
        &&& distinct_keys(self.failure_status_counts@)
        &&& distinct_keys(self.failure_error_counts@)
    }
}

/// How many of `failures` have a status named `k`.
pub open spec fn status_hits(failures: Seq<ProbeFailureSample>, k: Seq<char>) -> nat
    decreases failures.len(),
{
    if failures.len() == 0 {
        0
    } else {
        status_hits(failures.drop_last(), k) + (if attempt_status_name(failures.last().status) == k {
            1nat
        } else {
            0nat
        })
    }
}

/// How many of `failures` carry an error code named `k`.
pub open spec fn code_hits(failures: Seq<ProbeFailureSample>, k: Seq<char>) -> nat
    decreases failures.len(),
{
    if failures.len() == 0 {
        0
    } else {
        code_hits(failures.drop_last(), k) + (match failures.last().error_code {
            Some(c) => if error_code_name(c) == k {
                1nat
            } else {
                0nat
            },
            None => 0nat,
        })
    }
}

proof fn lemma_count_of_bounded(entries: Seq<(String, usize)>, key: Seq<char>)
    ensures
        0 <= count_of(entries, key) <= usize::MAX,
    decreases entries.len(),
{
    if entries.len() > 0 && entries.last().0@ != key {
        lemma_count_of_bounded(entries.drop_last(), key);
    }
}

/// `count + more`, saturated at `usize::MAX`.
pub open spec fn capped_count(count: int, more: int) -> int {
    if count + more <= usize::MAX {
        count + more
    } else {
        usize::MAX as int
    }
}

/// Counts each failure under its status, and under its error code when it
/// has one: every count grows by the number of failures under its key,
/// saturating at `usize::MAX`.
pub fn record_failure_counts(summary: &mut ProbeSummary, failures: &Vec<ProbeFailureSample>)
    requires
        old(summary).wf(),
    ensures
        final(summary).wf(),
        final(summary).resources_attempted == old(summary).resources_attempted,
        final(summary).matched_count == old(summary).matched_count,
        final(summary).failed_count == old(summary).failed_count,
        final(summary).resources_discovered == old(summary).resources_discovered,
        final(summary).candidates_attempted == old(summary).candidates_attempted,
        final(summary).skipped_count == old(summary).skipped_count,
        final(summary).timed_out_count == old(summary).timed_out_count,
        final(summary).duration_ms == old(summary).duration_ms,
        final(summary).stopped_after_first_total_success == old(summary).stopped_after_first_total_success,
        final(summary).family_errors@ == old(summary).family_errors@,
        forall|k: Seq<char>|
            #[trigger] count_of(final(summary).failure_status_counts@, k) == capped_count(
                count_of(old(summary).failure_status_counts@, k),
                status_hits(failures@, k) as int,
            ),
        forall|k: Seq<char>|
            #[trigger] count_of(final(summary).failure_error_counts@, k) == capped_count(
                count_of(old(summary).failure_error_counts@, k),
                code_hits(failures@, k) as int,
            ),
{
    proof {
        assert(failures@.take(0) =~= Seq::<ProbeFailureSample>::empty());
        assert forall|k: Seq<char>| #[trigger] count_of(summary.failure_status_counts@, k) <= usize::MAX by {
            lemma_count_of_bounded(summary.failure_status_counts@, k);
        }
        assert forall|k: Seq<char>| #[trigger] count_of(summary.failure_error_counts@, k) <= usize::MAX by {
            lemma_count_of_bounded(summary.failure_error_counts@, k);
        }
    }
    let mut i: usize = 0;
    while i < failures.len()
        invariant
            i <= failures@.len(),
            summary.wf(),
            summary.resources_attempted == old(summary).resources_attempted,
            summary.matched_count == old(summary).matched_count,
            summary.failed_count == old(summary).failed_count,
            summary.resources_discovered == old(summary).resources_discovered,
            summary.candidates_attempted == old(summary).candidates_attempted,
            summary.skipped_count == old(summary).skipped_count,
            summary.timed_out_count == old(summary).timed_out_count,
            summary.duration_ms == old(summary).duration_ms,
            summary.stopped_after_first_total_success == old(summary).stopped_after_first_total_success,
            summary.family_errors@ == old(summary).family_errors@,
            forall|k: Seq<char>|
                #[trigger] count_of(summary.failure_status_counts@, k) == capped_count(
                    count_of(old(summary).failure_status_counts@, k),
                    status_hits(failures@.take(i as int), k) as int,
                ),
            forall|k: Seq<char>|
                #[trigger] count_of(summary.failure_error_counts@, k) == capped_count(
                    count_of(old(summary).failure_error_counts@, k),
                    code_hits(failures@.take(i as int), k) as int,
                ),
        decreases failures@.len() - i,
    {
        let failure = &failures[i];
        let ghost before_status = summary.failure_status_counts@;
        let ghost before_codes = summary.failure_error_counts@;
        proof {
            assert(failures@.take(i + 1).drop_last() =~= failures@.take(i as int));
            assert(failures@.take(i + 1).last() == failures@[i as int]);
        }
        bump_count(&mut summary.failure_status_counts, failure.status.as_str());
        match failure.error_code {
            Some(code) => bump_count(&mut summary.failure_error_counts, code.name()),
            None => {},
        }
        proof {
            assert forall|k: Seq<char>|
                #[trigger] count_of(summary.failure_status_counts@, k) == capped_count(
                    count_of(old(summary).failure_status_counts@, k),
                    status_hits(failures@.take(i + 1), k) as int,
                ) by {
                assert(count_of(before_status, k) == capped_count(
                    count_of(old(summary).failure_status_counts@, k),
                    status_hits(failures@.take(i as int), k) as int,
                ));
            }
            assert forall|k: Seq<char>|
                #[trigger] count_of(summary.failure_error_counts@, k) == capped_count(
                    count_of(old(summary).failure_error_counts@, k),
                    code_hits(failures@.take(i + 1), k) as int,
                ) by {
                assert(count_of(before_codes, k) == capped_count(
                    count_of(old(summary).failure_error_counts@, k),
                    code_hits(failures@.take(i as int), k) as int,
                ));
            }
        }
        i = i + 1;
    }
    proof {
        assert(failures@.take(failures@.len() as int) =~= failures@);
    }
}

/// The answer to a probe.
#[derive(Debug, Clone)]
pub struct DeviceProbeResponse {
    pub successes: Vec<ProbeSuccess>,
    pub summary: ProbeSummary,
    pub failure_samples: Vec<ProbeFailureSample>,
}

/// The name under which a probe family is reported.
pub open spec fn family_name(t: ProbeTarget) -> Seq<char> {
    match t {
        ProbeTarget::Serial => "Serial"@,
        ProbeTarget::Visa => "Visa"@,
    }
}

/// Each family error as its family's name and its error code's name.
pub open spec fn family_error_fields(family_errors: Seq<(ProbeTarget, DomainError)>) -> Seq<(Seq<char>, Seq<char>)> {
    family_errors.map_values(|f: (ProbeTarget, DomainError)| (family_name(f.0), error_code_name(f.1.code)))
}

/// `e` is the error of a probe for which no resource could be planned, with
/// these family errors.
pub open spec fn no_resources(e: DomainError, family_errors: Seq<(ProbeTarget, DomainError)>) -> bool {
    &&& e.category == ErrorCategory::InvalidState
    &&& e.code == ErrorCode::NoDataAvailable
    &&& !e.retryable
    &&& e.message@ == "device_probe found no executable resources."@
    &&& e.recovery_hint@ == "Provide explicit resources or verify resource scanning and feature availability."@
    &&& e.details@ == seq![("family_errors"@, DetailView::Fields(family_error_fields(family_errors)))]
}

/// The error of a probe for which no resource could be planned.
pub fn no_resources_error(family_errors: Vec<(ProbeTarget, DomainError)>) -> (e: DomainError)
    ensures
        no_resources(e, family_errors@),
{
    let mut fields: Vec<(String, String)> = Vec::new();
    let mut i: usize = 0;
    while i < family_errors.len()
        invariant
            i <= family_errors@.len(),
            field_views(fields@) =~= family_error_fields(family_errors@.take(i as int)),
        decreases family_errors@.len() - i,
    {
        let family = match family_errors[i].0 {
            ProbeTarget::Serial => "Serial",
            ProbeTarget::Visa => "Visa",
        };
        let ghost before = fields@;
        let f = family.to_owned();
        let c = family_errors[i].1.code.name().to_owned();
        assert(f@ == family_name(family_errors@[i as int].0));
        fields.push((f, c));
        assert(fields@ =~= before.push((f, c)));
        assert(field_views(fields@) =~= field_views(before).push((f@, c@)));
        assert(family_errors@.take(i + 1) =~= family_errors@.take(i as int).push(family_errors@[i as int]));
        assert(family_error_fields(family_errors@.take(i + 1)) =~= family_error_fields(
            family_errors@.take(i as int),
        ).push((family_name(family_errors@[i as int].0), error_code_name(family_errors@[i as int].1.code))));
        i = i + 1;
    }
    assert(family_errors@.take(family_errors@.len() as int) =~= family_errors@);
    let e = DomainError::new(
        ErrorCategory::InvalidState,
        ErrorCode::NoDataAvailable,
        "device_probe found no executable resources.",
        "Provide explicit resources or verify resource scanning and feature availability.",
        false,
    ).with_detail("family_errors", DetailValue::Fields(fields));
    assert(e.details@ =~= seq![("family_errors"@, DetailView::Fields(family_error_fields(family_errors@)))]);
    e
}

/// How many resources are probed at once: the limit, at most the number of
/// resources, and at least one.
pub fn probe_concurrency(max_concurrency: usize, resources: usize) -> (n: usize)
    ensures
        n == (if max_concurrency < resources {
            if max_concurrency == 0 { 1 } else { max_concurrency }
        } else {
            if resources == 0 { 1 } else { resources }
        }),
{
    let m = if max_concurrency < resources {
        max_concurrency
    } else {
        resources
    };
    if m == 0 {
        1
    } else {
        m
    }
}

pub open spec fn sat_add(a: int, b: int) -> int {
    if a + b > usize::MAX {
        usize::MAX as int
    } else {
        a + b
    }
}

fn sat_add_usize(a: usize, b: usize) -> (c: usize)
    ensures
        c == sat_add(a as int, b as int),
{
    if a > usize::MAX - b {
        usize::MAX
    } else {
        a + b
    }
}

impl DeviceProbeResponse {
    /// An empty answer for `resources_discovered` planned resources.
    pub fn new(resources_discovered: usize, family_errors: Vec<(ProbeTarget, DomainError)>) -> (r: Self)
        ensures
            r.successes@.len() == 0,
            r.failure_samples@.len() == 0,
            r.summary.wf(),
            r.summary.resources_discovered == resources_discovered,
            r.summary.resources_attempted == 0,
            r.summary.candidates_attempted == 0,
            r.summary.matched_count == 0,
            r.summary.failed_count == 0,
            r.summary.skipped_count == 0,
            r.summary.timed_out_count == 0,
            r.summary.failure_status_counts@.len() == 0,
            r.summary.failure_error_counts@.len() == 0,
            r.summary.family_errors@ == family_errors@,
            r.summary.duration_ms == 0,
            !r.summary.stopped_after_first_total_success,
    {
        DeviceProbeResponse {
            successes: Vec::new(),
            summary: ProbeSummary {
                resources_discovered,
                resources_attempted: 0,
                candidates_attempted: 0,
                matched_count: 0,
                failed_count: 0,
                skipped_count: 0,
                timed_out_count: 0,
                failure_status_counts: Vec::new(),
                failure_error_counts: Vec::new(),
                family_errors,
                duration_ms: 0,
                stopped_after_first_total_success: false,
            },
            failure_samples: Vec::new(),
        }
    }

    /// Folds the result of one resource into the answer and says whether to
    /// stop: counters add up (saturating), matches are kept, failures are
    /// counted, and sampled up to `failure_sample_max` when samples are
    /// asked for; the run stops after the first match when the request says so.
    pub fn absorb(&mut self, result: ResourceProbeResult, request: &ProbeRequest) -> (stop: bool)
        requires
            old(self).summary.wf(),
        ensures
            final(self).summary.wf(),
            final(self).summary.resources_attempted == sat_add(old(self).summary.resources_attempted as int, 1),
            final(self).summary.candidates_attempted == sat_add(
                old(self).summary.candidates_attempted as int,
                result.attempted as int,
            ),
            final(self).summary.timed_out_count == sat_add(
                old(self).summary.timed_out_count as int,
                result.timed_out as int,
            ),
            final(self).summary.skipped_count == sat_add(old(self).summary.skipped_count as int, result.skipped as int),
            final(self).summary.failed_count == sat_add(
                old(self).summary.failed_count as int,
                result.failures@.len() as int,
            ),
            final(self).summary.matched_count == sat_add(
                old(self).summary.matched_count as int,
                result.successes@.len() as int,
            ),
            final(self).successes@ == old(self).successes@ + result.successes@,
            final(self).failure_samples@ == (if request.failure_output == FailureOutputParam::Samples {
                let room = if old(self).failure_samples@.len() < request.limits.failure_sample_max {
                    request.limits.failure_sample_max - old(self).failure_samples@.len()
                } else {
                    0
                };
                old(self).failure_samples@ + result.failures@.take(
                    if result.failures@.len() < room { result.failures@.len() as int } else { room as int },
                )
            } else {
                old(self).failure_samples@
            }),
            stop == (request.limits.stop_after_first_success_total && final(self).successes@.len() > 0),
            final(self).summary.stopped_after_first_total_success == (stop
                || old(self).summary.stopped_after_first_total_success),
            final(self).summary.resources_discovered == old(self).summary.resources_discovered,
            final(self).summary.family_errors@ == old(self).summary.family_errors@,
            final(self).summary.duration_ms == old(self).summary.duration_ms,
            forall|k: Seq<char>|
                #[trigger] count_of(final(self).summary.failure_status_counts@, k) == capped_count(
                    count_of(old(self).summary.failure_status_counts@, k),
                    status_hits(result.failures@, k) as int,
                ),
            forall|k: Seq<char>|
                #[trigger] count_of(final(self).summary.failure_error_counts@, k) == capped_count(
                    count_of(old(self).summary.failure_error_counts@, k),
                    code_hits(result.failures@, k) as int,
                ),
    {
        self.summary.resources_attempted = sat_add_usize(self.summary.resources_attempted, 1);
        self.summary.candidates_attempted = sat_add_usize(self.summary.candidates_attempted, result.attempted);
        self.summary.timed_out_count = sat_add_usize(self.summary.timed_out_count, result.timed_out);
        self.summary.skipped_count = sat_add_usize(self.summary.skipped_count, result.skipped);
        self.summary.failed_count = sat_add_usize(self.summary.failed_count, result.failures.len());
        record_failure_counts(&mut self.summary, &result.failures);
        self.summary.matched_count = sat_add_usize(self.summary.matched_count, result.successes.len());
        let ResourceProbeResult { successes, failures, attempted: _, timed_out: _, skipped: _ } = result;
        let ghost all_failures = failures@;
        let mut successes = successes;
        self.successes.append(&mut successes);
        if request.failure_output == FailureOutputParam::Samples {
            let have = self.failure_samples.len();
            let room = if have < request.limits.failure_sample_max {
                request.limits.failure_sample_max - have
            } else {
                0
            };
            let take = if failures.len() < room {
                failures.len()
            } else {
                room
            };
            let mut kept = failures;
            kept.truncate(take);
            self.failure_samples.append(&mut kept);
        }
        let stop = request.limits.stop_after_first_success_total && self.successes.len() > 0;
        if stop {
            self.summary.stopped_after_first_total_success = true;
        }
        stop
    }
}

} // verus!
