//! The decisions of a listening TCP transport: its bounded inbound frame
//! queue, peer-directed reads, and the outcome of broadcasts.
use std::collections::VecDeque;
use vstd::prelude::*;
use vstd::slice::{slice_subrange, slice_to_vec};

use crate::model::error::{ErrorCategory, ErrorCode};
use crate::transport::common::{map_write_error, IoKind, TransportError, transport_error_is};
use crate::util::text::str_eq;

verus! {

broadcast use vstd::std_specs::vecdeque::group_vec_dequeue_axioms;

/// The most inbound frames a listener keeps; the oldest are dropped first.
pub const TCP_LISTEN_INBOUND_MAX_FRAMES: usize = 1024;

/// A connected peer of a listener.
#[derive(Debug, Clone)]
pub struct TcpPeerSummary {
    pub peer_id: String,
    pub remote_addr: String,
}

/// A frame read from a listener.
#[derive(Debug, Clone)]
pub struct TcpListenReadResult {
    pub peer_id: String,
    pub remote_addr: String,
    pub bytes: Vec<u8>,
    pub remaining_frames: usize,
}

/// The outcome of a listener write.
#[derive(Debug, Clone)]
pub struct TcpListenWriteResult {
    pub sent_bytes: usize,
    pub mode: TcpListenWriteMode,
    pub peer_id: Option<String>,
    pub successful_peer_ids: Vec<String>,
    pub failed_peer_count: usize,
}

#[derive(Debug, Clone, Copy, PartialEq, Eq, Structural)]
pub enum TcpListenWriteMode {
    Peer,
    Broadcast,
}

/// A frame received from a peer.
#[derive(Debug, Clone)]
pub struct TcpInboundFrame {
    pub peer_id: String,
    pub remote_addr: String,
    pub bytes: Vec<u8>,
}

/// The frames received by a listener and not yet read, oldest first.
#[derive(Debug)]
pub struct TcpListenInbox {
    frames: VecDeque<TcpInboundFrame>,
}

/// What a frame holds.
pub struct FrameView {
    pub peer_id: Seq<char>,
    pub remote_addr: Seq<char>,
    pub bytes: Seq<u8>,
}

pub open spec fn frame_view(f: TcpInboundFrame) -> FrameView {
    FrameView { peer_id: f.peer_id@, remote_addr: f.remote_addr@, bytes: f.bytes@ }
}

pub open spec fn frame_views(q: Seq<TcpInboundFrame>) -> Seq<FrameView> {
    q.map_values(|f: TcpInboundFrame| frame_view(f))
}

/// The frames without those of `peer_id`.
pub open spec fn without_peer(q: Seq<FrameView>, peer_id: Seq<char>) -> Seq<FrameView>
    decreases q.len(),
{
    if q.len() == 0 {
        Seq::empty()
    } else {
        let rest = without_peer(q.drop_last(), peer_id);
        if q.last().peer_id == peer_id {
            rest
        } else {
            rest.push(q.last())
        }
    }
}

/// The first frame of `peer_id`, if any.
pub open spec fn first_of_peer(q: Seq<FrameView>, peer_id: Seq<char>) -> Option<int> {
    if exists|i: int| 0 <= i < q.len() && #[trigger] q[i].peer_id == peer_id {
        Some(
            choose|i: int|
                0 <= i < q.len() && #[trigger] q[i].peer_id == peer_id && forall|j: int|
                    0 <= j < i ==> q[j].peer_id != peer_id,
        )
    } else {
        None
    }
}

/// The frame a read takes: the first of the peer, or the oldest.
pub open spec fn read_index(q: Seq<FrameView>, peer_id: Option<Seq<char>>) -> Option<int> {
    match peer_id {
        Some(p) => first_of_peer(q, p),
        None => if q.len() == 0 {
            None
        } else {
            Some(0)
        },
    }
}

/// The first frame of a peer is the one before which no frame is that peer's.
pub proof fn lemma_first_of_peer(q: Seq<FrameView>, peer_id: Seq<char>, i: int)
    requires
        0 <= i < q.len(),
        q[i].peer_id == peer_id,
        forall|j: int| 0 <= j < i ==> q[j].peer_id != peer_id,
    ensures
        first_of_peer(q, peer_id) == Some(i),
{
    let c = choose|c: int|
        0 <= c < q.len() && #[trigger] q[c].peer_id == peer_id && forall|j: int|
            0 <= j < c ==> q[j].peer_id != peer_id;
    assert(q[c].peer_id == peer_id);
    if c < i {
    } else if c > i {
        assert(q[i].peer_id != peer_id);
    }
}

/// A frame a read takes lies in the inbox.
pub proof fn lemma_read_index_in_range(q: Seq<FrameView>, peer_id: Option<Seq<char>>)
    ensures
        read_index(q, peer_id) matches Some(i) ==> 0 <= i < q.len(),
{
    if let Some(p) = peer_id {
        if exists|i: int| 0 <= i < q.len() && #[trigger] q[i].peer_id == p {
            let w = choose|i: int| 0 <= i < q.len() && #[trigger] q[i].peer_id == p;
            lemma_least_of_peer(q, p, w);
        }
    }
}

proof fn lemma_least_of_peer(q: Seq<FrameView>, p: Seq<char>, w: int)
    requires
        0 <= w < q.len(),
        q[w].peer_id == p,
    ensures
        exists|i: int|
            0 <= i < q.len() && #[trigger] q[i].peer_id == p && forall|j: int|
                0 <= j < i ==> q[j].peer_id != p,
    decreases w,
{
    if exists|j: int| 0 <= j < w && #[trigger] q[j].peer_id == p {
        let j = choose|j: int| 0 <= j < w && #[trigger] q[j].peer_id == p;
        lemma_least_of_peer(q, p, j);
    } else {
        assert(forall|j: int| 0 <= j < w ==> q[j].peer_id != p);
    }
}

impl View for TcpListenInbox {
    type V = Seq<FrameView>;

    closed spec fn view(&self) -> Seq<FrameView> {
        frame_views(self.frames@)
    }
}

impl TcpListenInbox {
    pub fn new() -> (b: Self)
        ensures
            b@.len() == 0,
    {
        let b = TcpListenInbox { frames: VecDeque::new() };
        assert(b@ =~= Seq::<FrameView>::empty());
        b
    }

    /// Keeps a received frame, dropping the oldest when the inbox is full.
    pub fn push_frame(&mut self, frame: TcpInboundFrame)
        ensures
            final(self)@ == (if old(self)@.len() >= TCP_LISTEN_INBOUND_MAX_FRAMES {
                old(self)@.drop_first()
            } else {
                old(self)@
            }).push(frame_view(frame)),
    {
        let ghost before = self.frames@;
        if self.frames.len() >= TCP_LISTEN_INBOUND_MAX_FRAMES {
            self.frames.pop_front();
            assert(frame_views(self.frames@) =~= frame_views(before).drop_first());
        }
        let ghost mid = self.frames@;
        self.frames.push_back(frame);
        assert(frame_views(self.frames@) =~= frame_views(mid).push(frame_view(frame)));
    }

    /// Forgets every frame of a disconnected peer.
    pub fn drop_peer(&mut self, peer_id: &str)
        ensures
            final(self)@ == without_peer(old(self)@, peer_id@),
    {
        let ghost old_view = self@;
        let mut old_frames: VecDeque<TcpInboundFrame> = VecDeque::new();
        std::mem::swap(&mut self.frames, &mut old_frames);
        let ghost original = old_frames@;
        assert(frame_views(self.frames@) =~= without_peer(old_view.take(0), peer_id@));
        let ghost mut taken: int = 0;
        while old_frames.len() > 0
            invariant
                0 <= taken <= original.len(),
                old_frames@ == original.skip(taken),
                old_view == frame_views(original),
                frame_views(self.frames@) == without_peer(old_view.take(taken), peer_id@),
            decreases old_frames@.len(),
        {
            let ghost prev = self.frames@;
            match old_frames.pop_front() {
                Some(frame) => {
                    proof {
                        assert(original[taken] == frame);
                        assert(old_view.take(taken + 1).drop_last() =~= old_view.take(taken));
                        assert(old_view.take(taken + 1).last() == frame_view(frame));
                        assert(old_frames@ =~= original.skip(taken + 1));
                    }
                    if !crate::util::text::str_eq(frame.peer_id.as_str(), peer_id) {
                        self.frames.push_back(frame);
                        assert(frame_views(self.frames@) =~= frame_views(prev).push(frame_view(frame)));
                    }
                    proof {
                        taken = taken + 1;
                    }
                },
                None => {},
            }
        }
        assert(old_view.take(original.len() as int) =~= old_view);
    }

    /// Forgets every frame.
    pub fn clear(&mut self)
        ensures
            final(self)@.len() == 0,
    {
        self.frames.clear();
    }

    fn find_peer(&self, peer_id: &str) -> (r: Option<usize>)
        ensures
            match r {
                Some(i) => first_of_peer(self@, peer_id@) == Some(i as int),
                None => first_of_peer(self@, peer_id@) is None,
            },
    {
        let mut i: usize = 0;
        while i < self.frames.len()
            invariant
                i <= self.frames@.len(),
                forall|j: int| 0 <= j < i ==> self@[j].peer_id != peer_id@,
            decreases self.frames@.len() - i,
        {
            if crate::util::text::str_eq(self.frames[i].peer_id.as_str(), peer_id) {
                proof {
                    lemma_first_of_peer(self@, peer_id@, i as int);
                }
                return Some(i);
            }
            assert(self@[i as int].peer_id == self.frames@[i as int].peer_id@);
            i = i + 1;
        }
        None
    }

    /// Reads at most `max_bytes` of the first frame of `peer_id` (or of the
    /// oldest frame); a longer frame keeps its rest at the front of the
    /// inbox. `None` when there is no such frame.
    #[verifier::rlimit(40)]
    pub fn read_frame(&mut self, peer_id: Option<&str>, max_bytes: usize) -> (r: Option<TcpListenReadResult>)
        ensures
            match read_index(old(self)@, crate::model::config::opt_str(peer_id)) {
                None => r is None && final(self)@ == old(self)@,
                Some(i) => {
                    let f = old(self)@[i];
                    let rest = old(self)@.remove(i);
                    &&& r matches Some(res) && {
                        &&& res.peer_id@ == f.peer_id
                        &&& res.remote_addr@ == f.remote_addr
                        &&& if f.bytes.len() > max_bytes {
                            &&& res.bytes@ == f.bytes.take(max_bytes as int)
                            &&& res.remaining_frames == rest.len() + 1
                            &&& final(self)@ == seq![
                                FrameView {
                                    peer_id: f.peer_id,
                                    remote_addr: f.remote_addr,
                                    bytes: f.bytes.skip(max_bytes as int),
                                },
                            ] + rest
                        } else {
                            &&& res.bytes@ == f.bytes
                            &&& res.remaining_frames == rest.len()
                            &&& final(self)@ == rest
                        }
                    }
                },
            },
    {
        proof {
            lemma_read_index_in_range(self@, crate::model::config::opt_str(peer_id));
        }
        let index = match peer_id {
            Some(p) => match self.find_peer(p) {
                Some(i) => i,
                None => return None,
            },
            None => {
                if self.frames.len() == 0 {
                    return None;
                }
                0
            },
        };
        let ghost before = self.frames@;
        let total = self.frames.len();
        let frame = self.frames.remove(index).unwrap();
        assert(frame_views(self.frames@) =~= frame_views(before).remove(index as int));
        let remaining = self.frames.len();
        if frame.bytes.len() > max_bytes {
            let head = slice_to_vec(slice_subrange(frame.bytes.as_slice(), 0, max_bytes));
            let tail = slice_to_vec(
                slice_subrange(frame.bytes.as_slice(), max_bytes, frame.bytes.len()),
            );
            let result = TcpListenReadResult {
                peer_id: frame.peer_id.clone(),
                remote_addr: frame.remote_addr.clone(),
                bytes: head,
                remaining_frames: total,
            };
            let ghost mid = self.frames@;
            let rest_frame = TcpInboundFrame { peer_id: frame.peer_id, remote_addr: frame.remote_addr, bytes: tail };
            self.frames.push_front(rest_frame);
            proof {
                assert(head@ =~= frame.bytes@.take(max_bytes as int));
                assert(tail@ =~= frame.bytes@.skip(max_bytes as int));
                assert(frame_views(self.frames@) =~= seq![frame_view(rest_frame)] + frame_views(mid));
            }
            return Some(result);
        }
        Some(
            TcpListenReadResult {
                peer_id: frame.peer_id,
                remote_addr: frame.remote_addr,
                bytes: frame.bytes,
                remaining_frames: remaining,
            },
        )
    }
}

/// `ids[i]` is the first of `ids` that reads `id`.
pub open spec fn first_named(ids: Seq<String>, id: Seq<char>, i: int) -> bool {
    &&& 0 <= i < ids.len()
    &&& ids[i]@ == id
    &&& forall|j: int| 0 <= j < i ==> (#[trigger] ids[j])@ != id
}

/// Whom a listener write goes to: the first connected peer named `peer_id`,
/// given by its index in `peer_ids`, or, with no peer named, every connected
/// peer (`None`). A named peer that is not connected, or a broadcast with no
/// peer connected, is a closed transport.
pub fn listen_write_target(peer_id: Option<&str>, peer_ids: &Vec<String>) -> (r: Result<Option<usize>, TransportError>)
    ensures
        match peer_id {
            Some(id) => if exists|j: int| 0 <= j < peer_ids@.len() && (#[trigger] peer_ids@[j])@ == id@ {
                r matches Ok(Some(i)) && first_named(peer_ids@, id@, i as int)
            } else {
                r matches Err(e) && transport_error_is(
                    e,
                    ErrorCategory::WriteFailed,
                    ErrorCode::TransportClosed,
                    "tcp peer not found"@,
                    true,
                )
            },
            None => if peer_ids@.len() == 0 {
                r matches Err(e) && transport_error_is(
                    e,
                    ErrorCategory::WriteFailed,
                    ErrorCode::TransportClosed,
                    "tcp listen has no connected peers"@,
                    true,
                )
            } else {
                r == Ok::<Option<usize>, TransportError>(None)
            },
        },
{
    match peer_id {
        Some(id) => {
            let mut i: usize = 0;
            while i < peer_ids.len()
                invariant
                    peer_id == Some(id),
                    i <= peer_ids@.len(),
                    forall|j: int| 0 <= j < i ==> (#[trigger] peer_ids@[j])@ != id@,
                decreases peer_ids@.len() - i,
            {
                if str_eq(peer_ids[i].as_str(), id) {
                    return Ok(Some(i));
                }
                i = i + 1;
            }
            Err(TransportError::transport_closed("tcp peer not found"))
        },
        None => {
            if peer_ids.len() == 0 {
                Err(TransportError::transport_closed("tcp listen has no connected peers"))
            } else {
                Ok(None)
            }
        },
    }
}

/// The error of a write to a listener's peer: a write that did not finish in
/// time is a failed write, other failures are classified as any write's.
pub fn map_listen_write_error(kind: IoKind) -> (e: TransportError)
    ensures
        if kind == IoKind::TimedOut || kind == IoKind::WouldBlock {
            transport_error_is(e, ErrorCategory::WriteFailed, ErrorCode::WriteIoFailed, "tcp write timed out"@, true)
        } else if kind == IoKind::BrokenPipe || kind == IoKind::ConnectionReset {
            transport_error_is(e, ErrorCategory::WriteFailed, ErrorCode::TransportClosed, "transport peer closed"@, true)
        } else {
            transport_error_is(e, ErrorCategory::WriteFailed, ErrorCode::WriteIoFailed, "transport write failed"@, true)
        },
{
    if kind == IoKind::TimedOut || kind == IoKind::WouldBlock {
        TransportError::write_failed(ErrorCode::WriteIoFailed, "tcp write timed out")
    } else {
        map_write_error(kind)
    }
}

/// The outcome of writing one frame to every peer: the failures are
/// counted, and a broadcast no peer received is a closed transport.
pub fn broadcast_result(frame_len: usize, successful_peer_ids: Vec<String>, failed_peer_count: usize) -> (r:
    Result<TcpListenWriteResult, TransportError>)
    requires
        frame_len * successful_peer_ids@.len() <= usize::MAX,
    ensures
        match r {
            Ok(res) => {
                &&& successful_peer_ids@.len() > 0
                &&& res.sent_bytes == frame_len * successful_peer_ids@.len()
                &&& res.mode == TcpListenWriteMode::Broadcast
                &&& res.peer_id is None
                &&& res.successful_peer_ids@ == successful_peer_ids@
                &&& res.failed_peer_count == failed_peer_count
            },
            Err(e) => successful_peer_ids@.len() == 0 && transport_error_is(
                e,
                ErrorCategory::WriteFailed,
                ErrorCode::TransportClosed,
                "tcp broadcast failed for all peers"@,
                true,
            ),
        },
{
    if successful_peer_ids.len() == 0 {
        return Err(TransportError::transport_closed("tcp broadcast failed for all peers"));
    }
    let sent = frame_len * successful_peer_ids.len();
    Ok(
        TcpListenWriteResult {
            sent_bytes: sent,
            mode: TcpListenWriteMode::Broadcast,
            peer_id: None,
            successful_peer_ids,
            failed_peer_count,
        },
    )
}

/// The outcome of writing one frame to one peer.
pub fn peer_write_result(frame_len: usize, peer_id: &str) -> (r: TcpListenWriteResult)
    ensures
        r.sent_bytes == frame_len,
        r.mode == TcpListenWriteMode::Peer,
        r.peer_id matches Some(p) && p@ == peer_id@,
        r.successful_peer_ids@.len() == 1 && r.successful_peer_ids@[0]@ == peer_id@,
        r.failed_peer_count == 0,
{
    TcpListenWriteResult {
        sent_bytes: frame_len,
        mode: TcpListenWriteMode::Peer,
        peer_id: Some(peer_id.to_owned()),
        successful_peer_ids: vec![peer_id.to_owned()],
        failed_peer_count: 0,
    }
}

} // verus!
