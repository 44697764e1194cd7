//! Results of queueing and flushing transmissions.
use vstd::prelude::*;

verus! {

/// The answer to a send.
#[derive(Debug, Clone)]
pub struct SendResult {
    pub queued: bool,
    pub sent_bytes: usize,
    pub target: Option<SendTargetSummary>,
}

/// Where a send on a listening instance went.
#[derive(Debug, Clone)]
pub struct SendTargetSummary {
    pub mode: SendTargetMode,
    pub peer_id: Option<String>,
    pub peer_count: usize,
    pub successful_peer_ids: Vec<String>,
    pub failed_peer_count: usize,
}

#[derive(Debug, Clone, Copy, PartialEq, Eq, Structural)]
pub enum SendTargetMode {
    Peer,
    Broadcast,
}

/// The frames a flush handed to the transport, oldest first.
#[derive(Debug, Clone)]
pub struct FlushResult {
    pub frames: Vec<Vec<u8>>,
}

/// One queued frame.
#[derive(Debug, Clone)]
pub struct SendItem {
    pub bytes: Vec<u8>,
}

} // verus!
