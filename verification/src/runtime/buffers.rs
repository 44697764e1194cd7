//! Results of reading and clearing the receive buffer.
use vstd::prelude::*;

verus! {

/// Bytes taken from the front of the receive buffer.
#[derive(Debug, Clone)]
pub struct PullResult {
    pub bytes: Vec<u8>,
    pub truncated: bool,
    pub remaining_rx_buffer_bytes: usize,
    pub source: Option<PullSource>,
}

/// The peer a pulled chunk came from.
#[derive(Debug, Clone)]
pub struct PullSource {
    pub transport: String,
    pub peer_id: String,
    pub remote_addr: String,
}

/// Which buffers a clear empties.
#[derive(Debug, Clone, Copy, PartialEq, Eq, Structural)]
pub enum ClearTarget {
    Tx,
    Rx,
    All,
}

/// What a clear dropped.
#[derive(Debug, Clone, Copy, PartialEq, Eq, Structural)]
pub struct ClearResult {
    pub dropped_tx_items: usize,
    pub dropped_tx_bytes: usize,
    pub dropped_rx_bytes: usize,
}

} // verus!
