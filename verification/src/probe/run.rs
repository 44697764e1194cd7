//! Running the candidates of one resource and reading responses.
use vstd::prelude::*;

use crate::model::config::{SerialConfig, VisaConfig};
use crate::model::error::{DomainError, ErrorCode};
use crate::probe::params::{FailureOutputParam, ProbeAttemptStatus, ProbeTarget};
use crate::model::limits::RuntimeLimits;
use crate::probe::params::DeviceProbeParams;
use crate::probe::plans::{build_visa_plans, visa_plans_outcome, visa_settings_of, ResourcePlan};
use crate::probe::report::{
    code_hits, count_of, error_failure, no_resources, no_resources_error, status_hits, CandidateAttempt,
    DeviceProbeResponse, ProbeConfig, ProbeFailureSample, ProbeSuccess, ResourceProbeResult,
};
use crate::probe::matcher::response_matches;
use crate::probe::request::{probe_request_outcome, validate_request, ProbeRequest};
use crate::transport::common::TransportError;
use crate::transport::visa::{not_compiled, VisaWorker};
use crate::util::encoding::vec_result_view;
use vstd::slice::slice_to_vec;

verus! {

/// A source of response chunks, such as an open instrument session.
pub trait ResponseChunks {
    /// The chunks handed out so far, oldest first.
    spec fn chunks_read(&self) -> Seq<Result<Seq<u8>, DomainError>>;

    /// Hands out the next chunk (or the failure of reading it), which joins
    /// the chunks read.
    fn next_chunk(&mut self, max_bytes: usize) -> (r: Result<Vec<u8>, DomainError>)
        ensures
            final(self).chunks_read() == old(self).chunks_read().push(vec_result_view(r)),
    ;
}

impl ResponseChunks for VisaWorker {
    open spec fn chunks_read(&self) -> Seq<Result<Seq<u8>, DomainError>> {
        self.reads()
    }

    /// Every read fails in this build, as the backend is not compiled in.
    fn next_chunk(&mut self, max_bytes: usize) -> (r: Result<Vec<u8>, DomainError>)
        ensures
            r matches Err(e) && not_compiled(e, "port_pull"@),
    {
        let r = self.read(max_bytes);
        self.note_read(&r);
        r
    }
}

/// A source that hands out given chunks in order, then empty ones.
pub struct ScriptedChunks {
    chunks: Vec<Vec<u8>>,
    next: usize,
    reads: Ghost<Seq<Result<Seq<u8>, DomainError>>>,
}

impl ScriptedChunks {
    /// The chunks still to be handed out, in order.
    pub closed spec fn pending(&self) -> Seq<Seq<u8>> {
        self.chunks@.skip(self.next as int).map_values(|c: Vec<u8>| c@)
    }

    pub closed spec fn wf(&self) -> bool {
        self.next <= self.chunks@.len()
    }

    /// A source of `chunks`, none read yet.
    pub fn new(chunks: Vec<Vec<u8>>) -> (s: Self)
        ensures
            s.wf(),
            s.pending() == chunks@.map_values(|c: Vec<u8>| c@),
            s.chunks_read() == Seq::<Result<Seq<u8>, DomainError>>::empty(),
    {
        let s = ScriptedChunks { chunks, next: 0, reads: Ghost(Seq::empty()) };
        assert(s.chunks@.skip(0) =~= s.chunks@);
        s
    }
}

impl ResponseChunks for ScriptedChunks {
    closed spec fn chunks_read(&self) -> Seq<Result<Seq<u8>, DomainError>> {
        self.reads@
    }

    /// The next pending chunk, or an empty one when none is left.
    fn next_chunk(&mut self, max_bytes: usize) -> (r: Result<Vec<u8>, DomainError>)
        ensures
            old(self).wf() ==> final(self).wf(),
            old(self).wf() ==> (r matches Ok(c) && if old(self).pending().len() > 0 {
                &&& c@ == old(self).pending()[0]
                &&& final(self).pending() == old(self).pending().drop_first()
            } else {
                &&& c@.len() == 0
                &&& final(self).pending() == old(self).pending()
            }),
    {
        if self.next < self.chunks.len() {
            let c = slice_to_vec(self.chunks[self.next].as_slice());
            proof {
                assert(self.chunks@.skip(self.next as int + 1) =~= self.chunks@.skip(self.next as int).drop_first());
                assert(self.chunks@.skip(self.next as int)[0] == self.chunks@[self.next as int]);
            }
            self.next = self.next + 1;
            let r = Ok(c);
            self.reads = Ghost(self.reads@.push(vec_result_view(r)));
            proof {
                assert(self.chunks@.skip(self.next as int).map_values(|c: Vec<u8>| c@) =~= old(
                    self,
                ).chunks@.skip(old(self).next as int).map_values(|c: Vec<u8>| c@).drop_first());
            }
            r
        } else {
            let r = Ok(Vec::new());
            self.reads = Ghost(self.reads@.push(vec_result_view(r)));
            r
        }
    }
}

/// The bytes of one read: the chunk, or nothing for a failed read.
pub open spec fn chunk_of(read: Result<Seq<u8>, DomainError>) -> Seq<u8> {
    match read {
        Ok(c) => c,
        Err(_) => Seq::empty(),
    }
}

/// The bytes of the chunks among `reads`, in order.
pub open spec fn chunk_bytes(reads: Seq<Result<Seq<u8>, DomainError>>) -> Seq<u8>
    decreases reads.len(),
{
    if reads.len() == 0 {
        Seq::empty()
    } else {
        chunk_of(reads[0]) + chunk_bytes(reads.drop_first())
    }
}

/// Each of `reads` is a non-empty chunk read while fewer than `max` bytes
/// had been collected after `acc`, so reading went on after it.
pub open spec fn reads_continue(reads: Seq<Result<Seq<u8>, DomainError>>, acc: Seq<u8>, max: int) -> bool
    decreases reads.len(),
{
    if reads.len() == 0 {
        true
    } else {
        &&& acc.len() < max
        &&& reads[0] matches Ok(c) && c.len() > 0
        &&& reads_continue(reads.drop_first(), acc + chunk_of(reads[0]), max)
    }
}

/// Reading `reads` in order, after `acc` was collected, ends exactly after
/// the last of them with `r`: at `max` bytes the response is cut there and
/// nothing more is read; an empty chunk ends it; a failed read ends it with
/// that failure, except that a time-out after some bytes ends it normally.
pub open spec fn read_run(
    reads: Seq<Result<Seq<u8>, DomainError>>,
    acc: Seq<u8>,
    max: int,
    r: Result<Seq<u8>, DomainError>,
) -> bool
    decreases reads.len(),
{
    if acc.len() >= max {
        reads.len() == 0 && r == Ok::<Seq<u8>, DomainError>(acc.take(max))
    } else if reads.len() == 0 {
        false
    } else {
        match reads[0] {
            Ok(c) => if c.len() == 0 {
                reads.len() == 1 && r == Ok::<Seq<u8>, DomainError>(acc)
            } else {
                read_run(reads.drop_first(), acc + c, max, r)
            },
            Err(e) => reads.len() == 1 && r == (if e.code == ErrorCode::ReadTimeout && acc.len() > 0 {
                Ok::<Seq<u8>, DomainError>(acc)
            } else {
                Err::<Seq<u8>, DomainError>(e)
            }),
        }
    }
}

proof fn lemma_run_after_prefix(
    p: Seq<Result<Seq<u8>, DomainError>>,
    rest: Seq<Result<Seq<u8>, DomainError>>,
    acc: Seq<u8>,
    max: int,
    r: Result<Seq<u8>, DomainError>,
)
    requires
        reads_continue(p, acc, max),
        read_run(rest, acc + chunk_bytes(p), max, r),
    ensures
        read_run(p + rest, acc, max, r),
    decreases p.len(),
{
    if p.len() == 0 {
        assert(p + rest =~= rest);
        assert(acc + chunk_bytes(p) =~= acc);
    } else {
        let c = chunk_of(p[0]);
        assert(acc + c + chunk_bytes(p.drop_first()) =~= acc + chunk_bytes(p));
        lemma_run_after_prefix(p.drop_first(), rest, acc + c, max, r);
        assert((p + rest).drop_first() =~= p.drop_first() + rest);
        assert((p + rest)[0] == p[0]);
    }
}

proof fn lemma_continue_push(
    p: Seq<Result<Seq<u8>, DomainError>>,
    acc: Seq<u8>,
    c: Seq<u8>,
    max: int,
)
    requires
        reads_continue(p, acc, max),
        (acc + chunk_bytes(p)).len() < max,
        c.len() > 0,
    ensures
        reads_continue(p.push(Ok(c)), acc, max),
        chunk_bytes(p.push(Ok(c))) == chunk_bytes(p) + c,
    decreases p.len(),
{
    if p.len() == 0 {
        let q = p.push(Ok::<Seq<u8>, DomainError>(c));
        assert(q.drop_first() =~= Seq::<Result<Seq<u8>, DomainError>>::empty());
        assert(chunk_bytes(q.drop_first()) =~= Seq::<u8>::empty());
        assert(chunk_bytes(q) =~= c);
        assert(reads_continue(q.drop_first(), acc + chunk_of(q[0]), max));
        assert(chunk_bytes(p) =~= Seq::<u8>::empty());
        assert(acc + chunk_bytes(p) =~= acc);
    } else {
        let c0 = chunk_of(p[0]);
        assert(acc + c0 + chunk_bytes(p.drop_first()) =~= acc + chunk_bytes(p));
        lemma_continue_push(p.drop_first(), acc + c0, c, max);
        let q = p.push(Ok::<Seq<u8>, DomainError>(c));
        assert(q.drop_first() =~= p.drop_first().push(Ok::<Seq<u8>, DomainError>(c)));
        assert(q[0] == p[0]);
        assert(chunk_bytes(q) =~= chunk_bytes(p) + c);
    }
}

/// Reads chunks until `response_max_bytes` are collected (the excess is
/// cut), an empty chunk ends the response, or a read fails; a read time-out
/// after some bytes ends the response normally. The chunks it reads are
/// exactly those of [`read_run`].
pub fn read_visa_response<R: ResponseChunks>(source: &mut R, response_max_bytes: usize) -> (r: Result<
    Vec<u8>,
    DomainError,
>)
    ensures
        final(source).chunks_read().len() >= old(source).chunks_read().len(),
        final(source).chunks_read().take(old(source).chunks_read().len() as int) == old(
            source,
        ).chunks_read(),
        read_run(
            final(source).chunks_read().skip(old(source).chunks_read().len() as int),
            Seq::empty(),
            response_max_bytes as int,
            vec_result_view(r),
        ),
        r matches Ok(v) ==> v@.len() <= response_max_bytes,
{
    let ghost base = source.chunks_read();
    let ghost max = response_max_bytes as int;
    let mut response: Vec<u8> = Vec::new();
    proof {
        assert(source.chunks_read().skip(base.len() as int) =~= Seq::<Result<Seq<u8>, DomainError>>::empty());
        assert(source.chunks_read().take(base.len() as int) =~= base);
        assert(chunk_bytes(Seq::<Result<Seq<u8>, DomainError>>::empty()) =~= response@);
    }
    loop
        invariant
            base == old(source).chunks_read(),
            source.chunks_read().len() >= base.len(),
            source.chunks_read().take(base.len() as int) == base,
            max == response_max_bytes as int,
            reads_continue(source.chunks_read().skip(base.len() as int), Seq::empty(), max),
            response@ == chunk_bytes(source.chunks_read().skip(base.len() as int)),
        decreases (if response@.len() < response_max_bytes {
            response_max_bytes - response@.len()
        } else {
            0
        }),
    {
        let ghost d = source.chunks_read().skip(base.len() as int);
        if response.len() >= response_max_bytes {
            response.truncate(response_max_bytes);
            proof {
                let rr = Ok::<Seq<u8>, DomainError>(response@);
                assert(Seq::<u8>::empty() + chunk_bytes(d) =~= chunk_bytes(d));
                assert(read_run(Seq::empty(), chunk_bytes(d), max, rr));
                lemma_run_after_prefix(d, Seq::empty(), Seq::empty(), max, rr);
                assert(d + Seq::<Result<Seq<u8>, DomainError>>::empty() =~= d);
            }
            return Ok(response);
        }
        let ghost got = source.chunks_read();
        let next = source.next_chunk(response_max_bytes);
        proof {
            let x = vec_result_view(next);
            assert(source.chunks_read().skip(base.len() as int) =~= d.push(x));
            assert(source.chunks_read().take(base.len() as int) =~= got.take(base.len() as int));
            assert(d.push(x) =~= d + seq![x]);
            assert(Seq::<u8>::empty() + chunk_bytes(d) =~= chunk_bytes(d));
        }
        match next {
            Ok(chunk) => {
                if chunk.len() == 0 {
                    proof {
                        let x = vec_result_view(Ok::<Vec<u8>, DomainError>(chunk));
                        let rr = Ok::<Seq<u8>, DomainError>(response@);
                        assert(seq![x].drop_first() =~= Seq::<Result<Seq<u8>, DomainError>>::empty());
                        assert(read_run(seq![x], chunk_bytes(d), max, rr));
                        lemma_run_after_prefix(d, seq![x], Seq::empty(), max, rr);
                    }
                    return Ok(response);
                }
                let ghost c = chunk@;
                let mut chunk = chunk;
                response.append(&mut chunk);
                proof {
                    assert(Seq::<u8>::empty() + chunk_bytes(d) =~= chunk_bytes(d));
                    lemma_continue_push(d, Seq::empty(), c, max);
                }
            },
            Err(error) => {
                if error.code == ErrorCode::ReadTimeout && response.len() > 0 {
                    proof {
                        let x = Err::<Seq<u8>, DomainError>(error);
                        let rr = Ok::<Seq<u8>, DomainError>(response@);
                        assert(read_run(seq![x], chunk_bytes(d), max, rr));
                        lemma_run_after_prefix(d, seq![x], Seq::empty(), max, rr);
                    }
                    return Ok(response);
                }
                proof {
                    let x = Err::<Seq<u8>, DomainError>(error);
                    let rr = Err::<Seq<u8>, DomainError>(error);
                    assert(read_run(seq![x], chunk_bytes(d), max, rr));
                    lemma_run_after_prefix(d, seq![x], Seq::empty(), max, rr);
                }
                return Err(error);
            },
        }
    }
}

/// How much a serial response read asks for next: the room left under
/// `response_max_bytes`, or nothing once the response is full.
pub fn serial_read_room(got: usize, response_max_bytes: usize) -> (r: Option<usize>)
    ensures
        got >= response_max_bytes ==> r is None,
        got < response_max_bytes ==> r == Some((response_max_bytes - got) as usize),
{
    if got >= response_max_bytes {
        None
    } else {
        Some(response_max_bytes - got)
    }
}

/// Takes in the outcome of one serial read: a chunk joins the response and
/// reading goes on (`Ok(true)`); a time-out after some bytes ends the
/// response (`Ok(false)`); any other failure, or a time-out before any
/// byte, is the read's failure.
pub fn serial_read_absorb(response: &mut Vec<u8>, chunk: Result<Vec<u8>, TransportError>) -> (r: Result<
    bool,
    TransportError,
>)
    ensures
        match chunk {
            Ok(c) => r == Ok::<bool, TransportError>(true) && final(response)@ == old(response)@ + c@,
            Err(e) => final(response)@ == old(response)@ && if e.code == ErrorCode::ReadTimeout
                && old(response)@.len() > 0 {
                r == Ok::<bool, TransportError>(false)
            } else {
                r == Err::<bool, TransportError>(e)
            },
        },
{
    match chunk {
        Ok(c) => {
            let mut c = c;
            response.append(&mut c);
            Ok(true)
        },
        Err(e) => {
            if e.code == ErrorCode::ReadTimeout && response.len() > 0 {
                Ok(false)
            } else {
                Err(e)
            }
        },
    }
}

/// Tries each VISA candidate of `resource`: open, clear, write the payload,
/// read a response and match it. In this build no session opens, so every
/// candidate is recorded as unsupported and skipped.
pub fn run_visa_resource(resource: &str, candidates: &Vec<VisaConfig>, request: &ProbeRequest) -> (r:
    ResourceProbeResult)
    requires
        request.wf(),
    ensures
        r.attempted == candidates@.len(),
        r.skipped == candidates@.len(),
        r.timed_out == 0,
        r.successes@.len() == 0,
        r.failures@.len() == candidates@.len(),
        forall|i: int|
            0 <= i < r.failures@.len() ==> (#[trigger] r.failures@[i]).status
                == ProbeAttemptStatus::Unsupported && r.failures@[i].error_code == Some(
                ErrorCode::FeatureNotCompiled,
            ) && r.failures@[i].resource@ == resource@,
{
    let mut result = ResourceProbeResult::new();
    let mut i: usize = 0;
    while i < candidates.len()
        invariant
            request.wf(),
            i <= candidates@.len(),
            result.attempted == i,
            result.skipped == i,
            result.timed_out == 0,
            result.successes@.len() == 0,
            result.failures@.len() == i,
            forall|k: int|
                0 <= k < i ==> (#[trigger] result.failures@[k]).status == ProbeAttemptStatus::Unsupported
                    && result.failures@[k].error_code == Some(ErrorCode::FeatureNotCompiled)
                    && result.failures@[k].resource@ == resource@,
        ensures
            i == candidates@.len(),
        decreases candidates@.len() - i,
    {
        let config = &candidates[i];
        result.attempted = result.attempted + 1;
        match VisaWorker::open(config) {
            Ok(worker) => {
                let mut worker = worker;
                let _ = worker.clear();
                match worker.write(request.payload.as_slice()) {
                    Ok(sent_bytes) => {
                        match read_visa_response(&mut worker, request.limits.response_max_bytes) {
                            Ok(response) => {
                                let stop = result.record_attempt(
                                    ProbeTarget::Visa,
                                    resource,
                                    ProbeConfig::Visa(config.clone()),
                                    request,
                                    CandidateAttempt::Response { sent_bytes, response },
                                    0,
                                );
                                let _ = worker.close();
                                if stop {
                                    break;
                                }
                            },
                            Err(error) => {
                                let status = if error.code == ErrorCode::ReadTimeout {
                                    ProbeAttemptStatus::Timeout
                                } else {
                                    ProbeAttemptStatus::ReadError
                                };
                                result.record_attempt(
                                    ProbeTarget::Visa,
                                    resource,
                                    ProbeConfig::Visa(config.clone()),
                                    request,
                                    CandidateAttempt::Error { status, error },
                                    0,
                                );
                                let _ = worker.close();
                            },
                        }
                    },
                    Err(error) => {
                        result.record_attempt(
                            ProbeTarget::Visa,
                            resource,
                            ProbeConfig::Visa(config.clone()),
                            request,
                            CandidateAttempt::Error { status: ProbeAttemptStatus::WriteError, error },
                            0,
                        );
                        let _ = worker.close();
                    },
                }
            },
            Err(error) => {
                let status = if error.code == ErrorCode::FeatureNotCompiled {
                    result.skipped = result.skipped + 1;
                    ProbeAttemptStatus::Unsupported
                } else {
                    ProbeAttemptStatus::OpenError
                };
                let f = error_failure(ProbeTarget::Visa, resource, ProbeConfig::Visa(config.clone()), status, error);
                result.failures.push(f);
            },
        }
        i = i + 1;
    }
    result
}

/// `config` is one of the first `n` serial candidates.
pub open spec fn tried_candidate(config: ProbeConfig, candidates: Seq<SerialConfig>, n: int) -> bool {
    exists|j: int| 0 <= j < n && config == ProbeConfig::Serial(#[trigger] candidates[j])
}

/// `s` records a matching response that `attempt` gave for one of the first
/// `n` candidates when handed the request's payload.
pub open spec fn success_from_attempt<F: Fn(&SerialConfig, &[u8], usize) -> (CandidateAttempt, u64)>(
    attempt: F,
    s: ProbeSuccess,
    candidates: Seq<SerialConfig>,
    n: int,
    request: ProbeRequest,
) -> bool {
    exists|j: int, p: &[u8], sent: usize, response: Vec<u8>, d: u64|
        #![trigger call_ensures(attempt, (&candidates[j], p, request.limits.response_max_bytes), (CandidateAttempt::Response { sent_bytes: sent, response }, d))]
        {
            &&& 0 <= j < n
            &&& s.config == ProbeConfig::Serial(candidates[j])
            &&& p@ == request.payload@
            &&& call_ensures(
                attempt,
                (&candidates[j], p, request.limits.response_max_bytes),
                (CandidateAttempt::Response { sent_bytes: sent, response }, d),
            )
            &&& response_matches(request.matcher, response@)
            &&& s.sent_bytes == sent
            &&& s.recv_bytes == response@.len()
            &&& s.duration_ms == d
        }
}

/// `r` holds the record of outcome `out` of an attempt on `config`: a
/// success when it is a response that the matcher accepts, a matcher miss
/// when it is any other response, and a failure with the error's status and
/// code otherwise.
pub open spec fn attempt_recorded(
    r: ResourceProbeResult,
    config: ProbeConfig,
    out: (CandidateAttempt, u64),
    request: ProbeRequest,
) -> bool {
    match out.0 {
        CandidateAttempt::Response { sent_bytes, response } => if response_matches(
            request.matcher,
            response@,
        ) {
            exists|k: int|
                {
                    &&& 0 <= k < r.successes@.len()
                    &&& (#[trigger] r.successes@[k]).config == config
                    &&& r.successes@[k].sent_bytes == sent_bytes
                    &&& r.successes@[k].recv_bytes == response@.len()
                    &&& r.successes@[k].duration_ms == out.1
                }
        } else {
            exists|k: int|
                {
                    &&& 0 <= k < r.failures@.len()
                    &&& (#[trigger] r.failures@[k]).config == config
                    &&& r.failures@[k].status == ProbeAttemptStatus::MatcherMiss
                    &&& r.failures@[k].recv_bytes == Some(response@.len() as usize)
                }
        },
        CandidateAttempt::Error { status, error } => exists|k: int|
            {
                &&& 0 <= k < r.failures@.len()
                &&& (#[trigger] r.failures@[k]).config == config
                &&& r.failures@[k].status == status
                &&& r.failures@[k].error_code == Some(error.code)
            },
    }
}

/// Candidate `j` was handed to `attempt` with the request's payload, and `r`
/// holds the record of what came back.
pub open spec fn candidate_recorded<F: Fn(&SerialConfig, &[u8], usize) -> (CandidateAttempt, u64)>(
    attempt: F,
    r: ResourceProbeResult,
    candidates: Seq<SerialConfig>,
    j: int,
    request: ProbeRequest,
) -> bool {
    exists|p: &[u8], out: (CandidateAttempt, u64)|
        #![trigger call_ensures(attempt, (&candidates[j], p, request.limits.response_max_bytes), out)]
        {
            &&& p@ == request.payload@
            &&& call_ensures(attempt, (&candidates[j], p, request.limits.response_max_bytes), out)
            &&& attempt_recorded(r, ProbeConfig::Serial(candidates[j]), out, request)
        }
}

proof fn lemma_recorded_grows(
    a: ResourceProbeResult,
    b: ResourceProbeResult,
    config: ProbeConfig,
    out: (CandidateAttempt, u64),
    request: ProbeRequest,
)
    requires
        attempt_recorded(a, config, out, request),
        a.successes@.len() <= b.successes@.len(),
        a.failures@.len() <= b.failures@.len(),
        forall|k: int| 0 <= k < a.successes@.len() ==> b.successes@[k] == a.successes@[k],
        forall|k: int| 0 <= k < a.failures@.len() ==> b.failures@[k] == a.failures@[k],
    ensures
        attempt_recorded(b, config, out, request),
{
    match out.0 {
        CandidateAttempt::Response { sent_bytes, response } => {
            if response_matches(request.matcher, response@) {
                let k = choose|k: int|
                    {
                        &&& 0 <= k < a.successes@.len()
                        &&& (#[trigger] a.successes@[k]).config == config
                        &&& a.successes@[k].sent_bytes == sent_bytes
                        &&& a.successes@[k].recv_bytes == response@.len()
                        &&& a.successes@[k].duration_ms == out.1
                    };
                assert(b.successes@[k] == a.successes@[k]);
            } else {
                let k = choose|k: int|
                    {
                        &&& 0 <= k < a.failures@.len()
                        &&& (#[trigger] a.failures@[k]).config == config
                        &&& a.failures@[k].status == ProbeAttemptStatus::MatcherMiss
                        &&& a.failures@[k].recv_bytes == Some(response@.len() as usize)
                    };
                assert(b.failures@[k] == a.failures@[k]);
            }
        },
        CandidateAttempt::Error { status, error } => {
            let k = choose|k: int|
                {
                    &&& 0 <= k < a.failures@.len()
                    &&& (#[trigger] a.failures@[k]).config == config
                    &&& a.failures@[k].status == status
                    &&& a.failures@[k].error_code == Some(error.code)
                };
            assert(b.failures@[k] == a.failures@[k]);
        },
    }
}

/// Tries the serial candidates of `resource` in order through `attempt`,
/// which sends the payload and gives the outcome and its duration; stops at
/// the first match when the request asks for one match per resource.
pub fn run_serial_resource_with_attempt<F: Fn(&SerialConfig, &[u8], usize) -> (CandidateAttempt, u64)>(
    resource: &str,
    candidates: &Vec<SerialConfig>,
    request: &ProbeRequest,
    attempt: F,
) -> (r: ResourceProbeResult)
    requires
        request.wf(),
        forall|c: &SerialConfig, p: &[u8], n: usize| call_requires(attempt, (c, p, n)),
    ensures
        r.attempted <= candidates@.len(),
        r.successes@.len() + r.failures@.len() == r.attempted,
        r.skipped == 0,
        r.timed_out <= r.failures@.len(),
        r.attempted < candidates@.len() ==> request.limits.stop_after_first_success_per_resource
            && r.successes@.len() > 0,
        forall|i: int|
            0 <= i < r.successes@.len() ==> (#[trigger] r.successes@[i]).resource@ == resource@,
        forall|i: int|
            0 <= i < r.successes@.len() ==> {
                &&& tried_candidate((#[trigger] r.successes@[i]).config, candidates@, r.attempted as int)
                &&& r.successes@[i].matched_by@ == request.matcher.spec_name()
            },
        forall|i: int|
            0 <= i < r.failures@.len() ==> tried_candidate(
                (#[trigger] r.failures@[i]).config,
                candidates@,
                r.attempted as int,
            ),
        forall|i: int|
            0 <= i < r.successes@.len() ==> success_from_attempt(
                attempt,
                #[trigger] r.successes@[i],
                candidates@,
                r.attempted as int,
                *request,
            ),
        forall|j: int| 0 <= j < r.attempted ==> candidate_recorded(attempt, r, candidates@, j, *request),
        request.limits.stop_after_first_success_per_resource ==> r.successes@.len() <= 1,
        request.limits.stop_after_first_success_per_resource && r.successes@.len() == 1 ==> {
            &&& r.failures@.len() + 1 == r.attempted
            &&& r.successes@[0].config == ProbeConfig::Serial(candidates@[r.attempted - 1])
        },
{
    let mut result = ResourceProbeResult::new();
    let mut i: usize = 0;
    while i < candidates.len()
        invariant_except_break
            request.limits.stop_after_first_success_per_resource ==> result.successes@.len() == 0,
        invariant
            request.wf(),
            forall|c: &SerialConfig, p: &[u8], n: usize| call_requires(attempt, (c, p, n)),
            i <= candidates@.len(),
            result.attempted == i,
            result.successes@.len() + result.failures@.len() == i,
            result.skipped == 0,
            result.timed_out <= result.failures@.len(),
            forall|k: int|
                0 <= k < result.successes@.len() ==> (#[trigger] result.successes@[k]).resource@
                    == resource@,
            forall|k: int|
                0 <= k < result.successes@.len() ==> {
                    &&& tried_candidate((#[trigger] result.successes@[k]).config, candidates@, i as int)
                    &&& result.successes@[k].matched_by@ == request.matcher.spec_name()
                },
            forall|k: int|
                0 <= k < result.failures@.len() ==> tried_candidate(
                    (#[trigger] result.failures@[k]).config,
                    candidates@,
                    i as int,
                ),
            forall|k: int|
                0 <= k < result.successes@.len() ==> success_from_attempt(
                    attempt,
                    #[trigger] result.successes@[k],
                    candidates@,
                    i as int,
                    *request,
                ),
            forall|j: int| 0 <= j < i ==> candidate_recorded(attempt, result, candidates@, j, *request),
        ensures
            result.attempted < candidates@.len() ==> request.limits.stop_after_first_success_per_resource
                && result.successes@.len() > 0,
            request.limits.stop_after_first_success_per_resource ==> result.successes@.len() <= 1,
            request.limits.stop_after_first_success_per_resource && result.successes@.len() == 1 ==> {
                &&& result.failures@.len() + 1 == result.attempted
                &&& result.successes@[0].config == ProbeConfig::Serial(candidates@[result.attempted - 1])
            },
        decreases candidates@.len() - i,
    {
        let config = &candidates[i];
        let ghost prev = result.successes@;
        let ghost prev_failures = result.failures@;
        let payload = request.payload.as_slice();
        let (outcome, duration_ms) = attempt(config, payload, request.limits.response_max_bytes);
        let ghost out = (outcome, duration_ms);
        let ghost before = result;
        let stop = result.record_attempt(
            ProbeTarget::Serial,
            resource,
            ProbeConfig::Serial(config.duplicate()),
            request,
            outcome,
            duration_ms,
        );
        proof {
            assert(ProbeConfig::Serial(candidates@[i as int]) == ProbeConfig::Serial(candidates@[i as int]));
            assert forall|k: int| 0 <= k < result.successes@.len() implies {
                &&& (#[trigger] result.successes@[k]).resource@ == resource@
                &&& tried_candidate(result.successes@[k].config, candidates@, i + 1)
                &&& result.successes@[k].matched_by@ == request.matcher.spec_name()
            } by {
                if k < prev.len() && result.successes@.len() > prev.len() {
                    assert(result.successes@.drop_last()[k] == result.successes@[k]);
                    assert(prev[k] == result.successes@[k]);
                }
                if k < prev.len() {
                    let j = choose|j: int| 0 <= j < i && prev[k].config == ProbeConfig::Serial(#[trigger] candidates@[j]);
                    assert(result.successes@[k].config == ProbeConfig::Serial(candidates@[j]));
                } else {
                    assert(result.successes@[k].config == ProbeConfig::Serial(candidates@[i as int]));
                }
            }
            assert forall|k: int| 0 <= k < result.successes@.len() implies success_from_attempt(
                attempt,
                #[trigger] result.successes@[k],
                candidates@,
                i + 1,
                *request,
            ) by {
                if k < prev.len() {
                    if result.successes@.len() > prev.len() {
                        assert(result.successes@.drop_last()[k] == result.successes@[k]);
                    }
                    assert(prev[k] == result.successes@[k]);
                    assert(success_from_attempt(attempt, prev[k], candidates@, i as int, *request));
                    let (j, p, sent, response, d) = choose|j: int, p: &[u8], sent: usize, response: Vec<u8>, d: u64|
                        {
                            &&& 0 <= j < i
                            &&& prev[k].config == ProbeConfig::Serial(candidates@[j])
                            &&& p@ == request.payload@
                            &&& call_ensures(
                                attempt,
                                (&candidates@[j], p, request.limits.response_max_bytes),
                                (CandidateAttempt::Response { sent_bytes: sent, response }, d),
                            )
                            &&& response_matches(request.matcher, response@)
                            &&& prev[k].sent_bytes == sent
                            &&& prev[k].recv_bytes == response@.len()
                            &&& prev[k].duration_ms == d
                        };
                    assert(call_ensures(
                        attempt,
                        (&candidates@[j], p, request.limits.response_max_bytes),
                        (CandidateAttempt::Response { sent_bytes: sent, response }, d),
                    ));
                } else {
                    match outcome {
                        CandidateAttempt::Response { sent_bytes, response } => {
                            assert(call_ensures(
                                attempt,
                                (&candidates@[i as int], payload, request.limits.response_max_bytes),
                                (CandidateAttempt::Response { sent_bytes, response }, duration_ms),
                            ));
                        },
                        CandidateAttempt::Error { .. } => {},
                    }
                }
            }
            assert forall|k: int| 0 <= k < result.failures@.len() implies tried_candidate(
                (#[trigger] result.failures@[k]).config,
                candidates@,
                i + 1,
            ) by {
                if k < prev_failures.len() {
                    if result.failures@.len() > prev_failures.len() {
                        assert(result.failures@.drop_last()[k] == result.failures@[k]);
                    }
                    assert(prev_failures[k] == result.failures@[k]);
                    let j = choose|j: int| 0 <= j < i && prev_failures[k].config == ProbeConfig::Serial(#[trigger] candidates@[j]);
                    assert(result.failures@[k].config == ProbeConfig::Serial(candidates@[j]));
                } else {
                    assert(result.failures@[k].config == ProbeConfig::Serial(candidates@[i as int]));
                }
            }
        }
        proof {
            assert forall|k: int| 0 <= k < before.successes@.len() implies result.successes@[k]
                == before.successes@[k] by {
                if result.successes@.len() > before.successes@.len() {
                    assert(result.successes@.drop_last()[k] == result.successes@[k]);
                }
            }
            assert forall|k: int| 0 <= k < before.failures@.len() implies result.failures@[k]
                == before.failures@[k] by {
                if result.failures@.len() > before.failures@.len() {
                    assert(result.failures@.drop_last()[k] == result.failures@[k]);
                }
            }
            assert forall|j: int| 0 <= j < i + 1 implies candidate_recorded(
                attempt,
                result,
                candidates@,
                j,
                *request,
            ) by {
                if j < i {
                    assert(candidate_recorded(attempt, before, candidates@, j, *request));
                    let (p, o) = choose|p: &[u8], o: (CandidateAttempt, u64)|
                        {
                            &&& p@ == request.payload@
                            &&& call_ensures(attempt, (&candidates@[j], p, request.limits.response_max_bytes), o)
                            &&& attempt_recorded(before, ProbeConfig::Serial(candidates@[j]), o, *request)
                        };
                    lemma_recorded_grows(before, result, ProbeConfig::Serial(candidates@[j]), o, *request);
                    assert(call_ensures(attempt, (&candidates@[j], p, request.limits.response_max_bytes), o));
                } else {
                    let last_s = result.successes@.len() - 1;
                    let last_f = result.failures@.len() - 1;
                    match outcome {
                        CandidateAttempt::Response { sent_bytes, response } => {
                            if response_matches(request.matcher, response@) {
                                assert(result.successes@[last_s].config == ProbeConfig::Serial(candidates@[j]));
                            } else {
                                assert(result.failures@[last_f].config == ProbeConfig::Serial(candidates@[j]));
                            }
                        },
                        CandidateAttempt::Error { status, error } => {
                            assert(result.failures@[last_f].config == ProbeConfig::Serial(candidates@[j]));
                        },
                    }
                    assert(attempt_recorded(result, ProbeConfig::Serial(candidates@[j]), out, *request));
                    assert(call_ensures(attempt, (&candidates@[j], payload, request.limits.response_max_bytes), out));
                }
            }
        }
        i = i + 1;
        if stop {
            assert(result.successes@.len() > 0);
            break;
        }
    }
    result
}

/// The plans a family's planning gave, if it was planned and succeeded.
pub open spec fn family_plans(o: Option<Result<Vec<ResourcePlan>, DomainError>>) -> Seq<ResourcePlan> {
    match o {
        Some(Ok(p)) => p@,
        _ => Seq::empty(),
    }
}

/// The error a family's planning gave, if it was planned and failed.
pub open spec fn family_error(t: ProbeTarget, o: Option<Result<Vec<ResourcePlan>, DomainError>>) -> Seq<
    (ProbeTarget, DomainError),
> {
    match o {
        Some(Err(e)) => seq![(t, e)],
        _ => Seq::empty(),
    }
}

/// Joins the planning of the serial and VISA families (`None` for a family
/// the request does not target): the serial plans then the VISA plans, and
/// the families' errors in the same order. With no plan at all, the probe
/// has nothing to run and fails with the families' errors.
pub fn gather_plans(
    serial: Option<Result<Vec<ResourcePlan>, DomainError>>,
    visa: Option<Result<Vec<ResourcePlan>, DomainError>>,
) -> (r: Result<(Vec<ResourcePlan>, Vec<(ProbeTarget, DomainError)>), DomainError>)
    ensures
        ({
            let plans = family_plans(serial) + family_plans(visa);
            let errors = family_error(ProbeTarget::Serial, serial) + family_error(ProbeTarget::Visa, visa);
            if plans.len() == 0 {
                r matches Err(e) && no_resources(e, errors)
            } else {
                r matches Ok((p, f)) && p@ == plans && f@ == errors
            }
        }),
{
    let ghost s0 = serial;
    let ghost v0 = visa;
    let mut plans: Vec<ResourcePlan> = Vec::new();
    let mut errors: Vec<(ProbeTarget, DomainError)> = Vec::new();
    match serial {
        Some(Ok(p)) => {
            let mut p = p;
            plans.append(&mut p);
        },
        Some(Err(e)) => errors.push((ProbeTarget::Serial, e)),
        None => {},
    }
    assert(plans@ =~= family_plans(s0));
    assert(errors@ =~= family_error(ProbeTarget::Serial, s0));
    match visa {
        Some(Ok(p)) => {
            let mut p = p;
            plans.append(&mut p);
        },
        Some(Err(e)) => errors.push((ProbeTarget::Visa, e)),
        None => {},
    }
    assert(plans@ =~= family_plans(s0) + family_plans(v0));
    assert(errors@ =~= family_error(ProbeTarget::Serial, s0) + family_error(ProbeTarget::Visa, v0));
    if plans.len() == 0 {
        return Err(no_resources_error(errors));
    }
    Ok((plans, errors))
}

/// The answer to a VISA probe of `n` > 0 planned resources in this build:
/// every resource is attempted with its one candidate, which is counted as
/// skipped, failed, `unsupported` and `FEATURE_NOT_COMPILED`; failures are
/// sampled only when the request asks for samples.
pub open spec fn visa_probe_answer(q: ProbeRequest, n: int, resp: DeviceProbeResponse) -> bool {
    let s = resp.summary;
    &&& resp.successes@.len() == 0
    &&& s.resources_discovered == n
    &&& s.resources_attempted == n
    &&& s.candidates_attempted == n
    &&& s.skipped_count == n
    &&& s.failed_count == n
    &&& s.matched_count == 0
    &&& s.timed_out_count == 0
    &&& s.family_errors@.len() == 0
    &&& s.duration_ms == 0
    &&& !s.stopped_after_first_total_success
    &&& forall|k: Seq<char>|
        #[trigger] count_of(s.failure_status_counts@, k) == (if k == "unsupported"@ { n } else { 0 })
    &&& forall|k: Seq<char>|
        #[trigger] count_of(s.failure_error_counts@, k) == (if k == "FEATURE_NOT_COMPILED"@ { n } else { 0 })
    &&& if q.failure_output == FailureOutputParam::Samples {
        &&& resp.failure_samples@.len() == (if n < q.limits.failure_sample_max { n } else {
            q.limits.failure_sample_max as int
        })
        &&& forall|i: int|
            0 <= i < resp.failure_samples@.len() ==> (#[trigger] resp.failure_samples@[i]).status
                == ProbeAttemptStatus::Unsupported && resp.failure_samples@[i].error_code == Some(
                ErrorCode::FeatureNotCompiled,
            )
    } else {
        resp.failure_samples@.len() == 0
    }
}

/// What a VISA probe of the checked request `q` answers: with no resource
/// list, the scan is refused and no resource is planned; otherwise the plans
/// of the listed resources, whose error is reported as the VISA family's,
/// and an empty list of plans leaves no resource to probe.
pub open spec fn visa_probe_outcome(q: ProbeRequest, rl: RuntimeLimits, r: Result<DeviceProbeResponse, DomainError>) -> bool {
    match visa_settings_of(q).resources {
        None => r matches Err(e) && exists|pe: DomainError|
            not_compiled(pe, "port_scan"@) && #[trigger] no_resources(e, seq![(ProbeTarget::Visa, pe)]),
        Some(list) => exists|pr: Result<Vec<ResourcePlan>, DomainError>|
            #[trigger] visa_plans_outcome(q, rl, list@, pr) && match pr {
                Err(pe) => r matches Err(e) && no_resources(e, seq![(ProbeTarget::Visa, pe)]),
                Ok(plans) => if plans@.len() == 0 {
                    r matches Err(e) && no_resources(e, Seq::empty())
                } else {
                    r matches Ok(resp) && visa_probe_answer(q, plans@.len() as int, resp)
                },
            },
    }
}

proof fn lemma_single_unsupported_hits(f: Seq<ProbeFailureSample>, k: Seq<char>)
    requires
        f.len() == 1,
        f[0].status == ProbeAttemptStatus::Unsupported,
        f[0].error_code == Some(ErrorCode::FeatureNotCompiled),
    ensures
        status_hits(f, k) == (if k == "unsupported"@ { 1nat } else { 0nat }),
        code_hits(f, k) == (if k == "FEATURE_NOT_COMPILED"@ { 1nat } else { 0nat }),
{
    assert(f.drop_last().len() == 0);
    assert(f.last() == f[0]);
    assert(status_hits(f.drop_last(), k) == 0);
    assert(code_hits(f.drop_last(), k) == 0);
}

/// Probes the VISA resources of a request: checks the request, plans its
/// VISA resources, and runs and folds each plan. A request that fails its
/// checks is refused with its error; in this build no VISA candidate can
/// match, so every attempted candidate is counted as skipped and failed.
pub fn probe_visa_resources(params: DeviceProbeParams, runtime_limits: &RuntimeLimits) -> (r: Result<
    DeviceProbeResponse,
    DomainError,
>)
    ensures
        !(exists|q: ProbeRequest| probe_request_outcome(params, *runtime_limits, Ok::<ProbeRequest, DomainError>(q)))
            ==> (r matches Err(e) && probe_request_outcome(params, *runtime_limits, Err::<ProbeRequest, DomainError>(e))),
        (exists|q: ProbeRequest| probe_request_outcome(params, *runtime_limits, Ok::<ProbeRequest, DomainError>(q)))
            ==> exists|q: ProbeRequest|
            #[trigger] probe_request_outcome(params, *runtime_limits, Ok::<ProbeRequest, DomainError>(q))
                && visa_probe_outcome(q, *runtime_limits, r),
{
    let ghost p0 = params;
    let request = match validate_request(params, runtime_limits) {
        Ok(q) => q,
        Err(e) => return Err(e),
    };
    assert(probe_request_outcome(p0, *runtime_limits, Ok::<ProbeRequest, DomainError>(request)));
    let plans = match build_visa_plans(&request, runtime_limits) {
        Ok(p) => p,
        Err(e) => {
            let ghost pe = e;
            let mut family_errors: Vec<(ProbeTarget, DomainError)> = Vec::new();
            family_errors.push((ProbeTarget::Visa, e));
            let ghost fe = seq![(ProbeTarget::Visa, pe)];
            assert(family_errors@ =~= fe);
            let out = no_resources_error(family_errors);
            proof {
                match visa_settings_of(request).resources {
                    Some(list) => {
                        assert(visa_plans_outcome(request, *runtime_limits, list@, Err::<Vec<ResourcePlan>, DomainError>(pe)));
                    },
                    None => {
                        assert(no_resources(out, fe));
                    },
                }
            }
            return Err(out);
        },
    };
    let ghost list = visa_settings_of(request).resources->0;
    assert(visa_plans_outcome(request, *runtime_limits, list@, Ok::<Vec<ResourcePlan>, DomainError>(plans)));
    if plans.len() == 0 {
        let out = no_resources_error(Vec::new());
        assert(no_resources(out, Seq::empty()));
        return Err(out);
    }
    let mut response = DeviceProbeResponse::new(plans.len(), Vec::new());
    let n = plans.len();
    let mut i: usize = 0;
    while i < plans.len()
        invariant
            request.wf(),
            n == plans@.len(),
            i <= n,
            forall|j: int|
                0 <= j < n ==> (#[trigger] plans@[j] matches ResourcePlan::Visa { resource, candidates }
                    && candidates@.len() == 1),
            response.summary.wf(),
            response.successes@.len() == 0,
            response.summary.resources_discovered == n,
            response.summary.resources_attempted == i,
            response.summary.candidates_attempted == i,
            response.summary.skipped_count == i,
            response.summary.failed_count == i,
            response.summary.matched_count == 0,
            response.summary.timed_out_count == 0,
            response.summary.family_errors@.len() == 0,
            response.summary.duration_ms == 0,
            !response.summary.stopped_after_first_total_success,
            forall|k: Seq<char>|
                #[trigger] count_of(response.summary.failure_status_counts@, k) == (if k == "unsupported"@ {
                    i as int
                } else {
                    0
                }),
            forall|k: Seq<char>|
                #[trigger] count_of(response.summary.failure_error_counts@, k) == (if k
                    == "FEATURE_NOT_COMPILED"@ {
                    i as int
                } else {
                    0
                }),
            if request.failure_output == FailureOutputParam::Samples {
                &&& response.failure_samples@.len() == (if i < request.limits.failure_sample_max {
                    i as int
                } else {
                    request.limits.failure_sample_max as int
                })
                &&& forall|m: int|
                    0 <= m < response.failure_samples@.len() ==> (#[trigger] response.failure_samples@[m]).status
                        == ProbeAttemptStatus::Unsupported && response.failure_samples@[m].error_code == Some(
                        ErrorCode::FeatureNotCompiled,
                    )
            } else {
                response.failure_samples@.len() == 0
            },
        decreases n - i,
    {
        assert(plans@[i as int] matches ResourcePlan::Visa { resource, candidates } && candidates@.len() == 1);
        match &plans[i] {
            ResourcePlan::Visa { resource, candidates } => {
                let result = run_visa_resource(resource.as_str(), candidates, &request);
                let ghost old_resp = response;
                let ghost fs = result.failures@;
                let _ = response.absorb(result, &request);
                proof {
                    assert forall|k: Seq<char>| #[trigger] count_of(response.summary.failure_status_counts@, k)
                        == (if k == "unsupported"@ { i + 1 } else { 0 }) by {
                        lemma_single_unsupported_hits(fs, k);
                    }
                    assert forall|k: Seq<char>| #[trigger] count_of(response.summary.failure_error_counts@, k)
                        == (if k == "FEATURE_NOT_COMPILED"@ { i + 1 } else { 0 }) by {
                        lemma_single_unsupported_hits(fs, k);
                    }
                    if request.failure_output == FailureOutputParam::Samples {
                        assert forall|m: int| 0 <= m < response.failure_samples@.len() implies (
                        #[trigger] response.failure_samples@[m]).status == ProbeAttemptStatus::Unsupported
                            && response.failure_samples@[m].error_code == Some(ErrorCode::FeatureNotCompiled) by {
                            if m >= old_resp.failure_samples@.len() {
                                assert(response.failure_samples@[m] == fs[m - old_resp.failure_samples@.len()]);
                            } else {
                                assert(response.failure_samples@[m] == old_resp.failure_samples@[m]);
                            }
                        }
                    }
                }
            },
            ResourcePlan::Serial { .. } => {},
        }
        i = i + 1;
    }
    let ghost resp = response;
    assert(visa_probe_answer(request, n as int, resp));
    Ok(response)
}

} // verus!
