//! An in-memory transport: scripted reads, recorded writes, injected
//! failures.
use std::collections::VecDeque;
use vstd::prelude::*;
use vstd::slice::slice_to_vec;

use crate::model::error::{ErrorCategory, ErrorCode};
use crate::transport::common::{TransportError, transport_error_is};

verus! {

broadcast use vstd::std_specs::vecdeque::group_vec_dequeue_axioms;

/// A transport whose reads are injected and whose writes are recorded.
#[derive(Debug)]
pub struct MockTransport {
    reads: VecDeque<Vec<u8>>,
    writes: Vec<Vec<u8>>,
    next_write_error: Option<TransportError>,
    closed: bool,
}

/// What a mock transport holds.
pub struct MockView {
    pub reads: Seq<Seq<u8>>,
    pub writes: Seq<Seq<u8>>,
    pub next_write_error: Option<TransportError>,
    pub closed: bool,
}

pub open spec fn chunk_views(v: Seq<Vec<u8>>) -> Seq<Seq<u8>> {
    v.map_values(|c: Vec<u8>| c@)
}

impl View for MockTransport {
    type V = MockView;

    closed spec fn view(&self) -> MockView {
        MockView {
            reads: chunk_views(self.reads@),
            writes: chunk_views(self.writes@),
            next_write_error: self.next_write_error,
            closed: self.closed,
        }
    }
}

impl MockTransport {
    /// The pending write failure fails with a write error of its code.
    closed spec fn pending_is_write_failure(&self) -> bool {
        self.next_write_error matches Some(e) ==> e.category == ErrorCategory::WriteFailed && e.fatal
    }

    pub closed spec fn wf(&self) -> bool {
        self.pending_is_write_failure()
    }

    pub fn new() -> (t: Self)
        ensures
            t.wf(),
            t@.reads.len() == 0,
            t@.writes.len() == 0,
            t@.next_write_error is None,
            !t@.closed,
    {
        let t = MockTransport {
            reads: VecDeque::new(),
            writes: Vec::new(),
            next_write_error: None,
            closed: false,
        };
        assert(chunk_views(t.reads@) =~= Seq::<Seq<u8>>::empty());
        assert(chunk_views(t.writes@) =~= Seq::<Seq<u8>>::empty());
        t
    }

    /// Queues a chunk for a later read.
    pub fn inject_read(&mut self, bytes: &[u8])
        requires
            old(self).wf(),
        ensures
            final(self).wf(),
            final(self)@.reads == old(self)@.reads.push(bytes@),
            final(self)@.writes == old(self)@.writes,
            final(self)@.next_write_error == old(self)@.next_write_error,
            final(self)@.closed == old(self)@.closed,
    {
        let ghost before = self.reads@;
        self.reads.push_back(slice_to_vec(bytes));
        assert(chunk_views(self.reads@) =~= chunk_views(before).push(bytes@));
    }

    /// The oldest injected chunk; a closed transport refuses, and an empty
    /// one times out.
    pub fn read_chunk(&mut self, max_bytes: usize) -> (r: Result<Vec<u8>, TransportError>)
        requires
            old(self).wf(),
        ensures
            final(self).wf(),
            final(self)@.writes == old(self)@.writes,
            final(self)@.next_write_error == old(self)@.next_write_error,
            final(self)@.closed == old(self)@.closed,
            if old(self)@.closed {
                r matches Err(e) && transport_error_is(
                    e,
                    ErrorCategory::WriteFailed,
                    ErrorCode::TransportClosed,
                    "mock transport is closed"@,
                    true,
                ) && final(self)@.reads == old(self)@.reads
            } else if old(self)@.reads.len() == 0 {
                r matches Err(e) && transport_error_is(
                    e,
                    ErrorCategory::ReadTimeout,
                    ErrorCode::ReadTimeout,
                    "mock transport has no injected reads"@,
                    false,
                ) && final(self)@.reads == old(self)@.reads
            } else {
                r matches Ok(c) && c@ == old(self)@.reads[0] && final(self)@.reads == old(
                    self,
                )@.reads.drop_first()
            },
    {
        if self.closed {
            return Err(TransportError::transport_closed("mock transport is closed"));
        }
        let ghost before = self.reads@;
        match self.reads.pop_front() {
            Some(chunk) => {
                assert(chunk_views(self.reads@) =~= chunk_views(before).drop_first());
                Ok(chunk)
            },
            None => Err(TransportError::read_timeout("mock transport has no injected reads")),
        }
    }

    /// Records a write; a closed transport refuses, and a pending failure
    /// is returned once instead.
    pub fn write_all(&mut self, bytes: &[u8]) -> (r: Result<usize, TransportError>)
        requires
            old(self).wf(),
        ensures
            final(self).wf(),
            final(self)@.reads == old(self)@.reads,
            final(self)@.closed == old(self)@.closed,
            if old(self)@.closed {
                r matches Err(e) && transport_error_is(
                    e,
                    ErrorCategory::WriteFailed,
                    ErrorCode::TransportClosed,
                    "mock transport is closed"@,
                    true,
                ) && final(self)@ == old(self)@
            } else if old(self)@.next_write_error is Some {
                r == Err::<usize, TransportError>(old(self)@.next_write_error.unwrap())
                    && final(self)@.next_write_error is None && final(self)@.writes == old(self)@.writes
            } else {
                r == Ok::<usize, TransportError>(bytes@.len() as usize) && final(self)@.writes == old(
                    self,
                )@.writes.push(bytes@) && final(self)@.next_write_error is None
            },
    {
        if self.closed {
            return Err(TransportError::transport_closed("mock transport is closed"));
        }
        match self.next_write_error.take() {
            Some(error) => {
                return Err(error);
            },
            None => {},
        }
        let ghost before = self.writes@;
        self.writes.push(slice_to_vec(bytes));
        assert(chunk_views(self.writes@) =~= chunk_views(before).push(bytes@));
        Ok(bytes.len())
    }

    /// Every recorded write, oldest first.
    pub fn writes(&self) -> (w: &[Vec<u8>])
        ensures
            chunk_views(w@) == self@.writes,
    {
        self.writes.as_slice()
    }

    /// Makes the next write fail with `code`.
    pub fn fail_next_write(&mut self, code: ErrorCode)
        requires
            old(self).wf(),
        ensures
            final(self).wf(),
            final(self)@.next_write_error matches Some(e) && transport_error_is(
                e,
                ErrorCategory::WriteFailed,
                code,
                "mock write failed"@,
                true,
            ),
            final(self)@.reads == old(self)@.reads,
            final(self)@.writes == old(self)@.writes,
            final(self)@.closed == old(self)@.closed,
    {
        self.next_write_error = Some(TransportError::write_failed(code, "mock write failed"));
    }

    /// Closes the transport; later reads and writes are refused.
    pub fn close(&mut self) -> (r: Result<(), TransportError>)
        requires
            old(self).wf(),
        ensures
            final(self).wf(),
            r is Ok,
            final(self)@.closed,
            final(self)@.reads == old(self)@.reads,
            final(self)@.writes == old(self)@.writes,
            final(self)@.next_write_error == old(self)@.next_write_error,
    {
        self.closed = true;
        Ok(())
    }
}

} // verus!
