//! Stream subscribers: bounded notification queues with drop-oldest and
//! coalescing under rate limits.
use std::collections::VecDeque;
use vstd::prelude::*;
use vstd::slice::{slice_subrange, slice_to_vec};

verus! {

broadcast use vstd::std_specs::vecdeque::group_vec_dequeue_axioms;

#[derive(Debug, Clone, Copy, PartialEq, Eq, Structural)]
pub struct SubscriptionResult {
    pub was_subscribed: bool,
}

#[derive(Debug, Clone, Copy, PartialEq, Eq, Structural)]
pub struct UnsubscribeResult {
    pub was_subscribed: bool,
}

/// One queued notification.
#[derive(Debug, Clone)]
pub struct Notification {
    pub payload: Vec<u8>,
    pub truncated: bool,
    pub coalesced: bool,
    pub dropped_notifications: u64,
}

/// `n` carries exactly these contents.
pub open spec fn notification_is(
    n: Notification,
    payload: Seq<u8>,
    truncated: bool,
    coalesced: bool,
    dropped: int,
) -> bool {
    &&& n.payload@ == payload
    &&& n.truncated == truncated
    &&& n.coalesced == coalesced
    &&& n.dropped_notifications == dropped
}

/// Total payload bytes of a queue.
pub open spec fn payload_total(q: Seq<Notification>) -> int
    decreases q.len(),
{
    if q.len() == 0 {
        0
    } else {
        payload_total(q.drop_last()) + q.last().payload@.len()
    }
}

/// `a + b`, saturated at `u64::MAX`.
pub open spec fn sat_u64(x: int) -> int {
    if x > u64::MAX {
        u64::MAX as int
    } else {
        x
    }
}

/// `x`, saturated at `usize::MAX`.
pub open spec fn sat_usize(x: int) -> int {
    if x > usize::MAX {
        usize::MAX as int
    } else {
        x
    }
}

/// A session's subscription to the stream of an instance.
#[derive(Debug, Clone)]
pub struct Subscriber {
    pub max_payload_bytes: usize,
    pub queue: VecDeque<Notification>,
    pub dropped_notifications: u64,
    pub dropped_bytes: u64,
    pub notification_tick: Option<u64>,
    pub notifications_this_tick: u32,
}

pub proof fn lemma_payload_total_nonneg(q: Seq<Notification>)
    ensures
        payload_total(q) >= 0,
    decreases q.len(),
{
    if q.len() > 0 {
        lemma_payload_total_nonneg(q.drop_last());
    }
}

/// Removing the first notification removes its payload from the total.
pub proof fn lemma_payload_total_drop_first(q: Seq<Notification>)
    requires
        q.len() > 0,
    ensures
        payload_total(q) == q[0].payload@.len() + payload_total(q.drop_first()),
    decreases q.len(),
{
    if q.len() > 1 {
        lemma_payload_total_drop_first(q.drop_last());
        assert(q.drop_last().drop_first() =~= q.drop_first().drop_last());
    } else {
        assert(q.drop_first() =~= Seq::<Notification>::empty());
        assert(q.drop_last() =~= Seq::<Notification>::empty());
    }
}

impl Subscriber {
    /// An empty subscription with the given payload cap.
    pub fn new(max_payload_bytes: usize) -> (s: Self)
        ensures
            s.max_payload_bytes == max_payload_bytes,
            s.queue@ == Seq::<Notification>::empty(),
            s.dropped_notifications == 0,
            s.dropped_bytes == 0,
            s.notification_tick is None,
            s.notifications_this_tick == 0,
    {
        Subscriber {
            max_payload_bytes,
            queue: VecDeque::new(),
            dropped_notifications: 0,
            dropped_bytes: 0,
            notification_tick: None,
            notifications_this_tick: 0,
        }
    }

    /// Payload bytes waiting in the queue.
    pub fn queued_bytes(&self) -> (n: usize)
        ensures
            n == sat_usize(payload_total(self.queue@)),
    {
        let mut total: usize = 0;
        let mut i: usize = 0;
        while i < self.queue.len()
            invariant
                i <= self.queue@.len(),
                total == sat_usize(payload_total(self.queue@.take(i as int))),
            decreases self.queue@.len() - i,
        {
            proof {
                let t = self.queue@.take(i + 1);
                assert(t.drop_last() =~= self.queue@.take(i as int));
                lemma_payload_total_nonneg(self.queue@.take(i as int));
            }
            total = total.saturating_add(self.queue[i].payload.len());
            i = i + 1;
        }
        assert(self.queue@.take(i as int) =~= self.queue@);
        total
    }

    /// Moves the per-tick counter to `tick` (restarting it on a new tick)
    /// and tells whether this subscriber reached `limit` for the tick.
    pub fn note_tick(&mut self, tick: u64, limit: u32) -> (limited: bool)
        ensures
            final(self).notification_tick == Some(tick),
            final(self).notifications_this_tick == (if old(self).notification_tick == Some(tick) {
                old(self).notifications_this_tick
            } else {
                0
            }),
            limited == (final(self).notifications_this_tick >= limit),
            final(self).max_payload_bytes == old(self).max_payload_bytes,
            final(self).queue@ == old(self).queue@,
            final(self).dropped_notifications == old(self).dropped_notifications,
            final(self).dropped_bytes == old(self).dropped_bytes,
    {
        let same = match self.notification_tick {
            Some(t) => t == tick,
            None => false,
        };
        if !same {
            self.notification_tick = Some(tick);
            self.notifications_this_tick = 0;
        }
        self.notifications_this_tick >= limit
    }

    /// Queues the first `max_payload_bytes` of `bytes`. Under a rate limit
    /// the whole queue is replaced by one coalesced notification; otherwise
    /// the oldest notification is dropped first when the queue is full.
    /// Returns the queued payload size, the payload bytes released and the
    /// number of notifications dropped.
    pub fn enqueue(&mut self, bytes: &[u8], queue_limit: usize, rate_limited: bool) -> (r: (
        usize,
        usize,
        u64,
    ))
        ensures
            ({
                let len = bytes@.len() as int;
                let pl = if len < old(self).max_payload_bytes {
                    len
                } else {
                    old(self).max_payload_bytes as int
                };
                let q = old(self).queue@;
                &&& r.0 == pl
                &&& final(self).max_payload_bytes == old(self).max_payload_bytes
                &&& final(self).notification_tick == old(self).notification_tick
                &&& final(self).dropped_bytes == sat_u64(old(self).dropped_bytes + (len - pl))
                &&& if rate_limited {
                    &&& r.1 == sat_usize(payload_total(q))
                    &&& r.2 == (if q.len() > 1 { q.len() as int } else { 1 })
                    &&& final(self).dropped_notifications == sat_u64(
                        old(self).dropped_notifications + r.2,
                    )
                    &&& final(self).notifications_this_tick == old(self).notifications_this_tick
                    &&& final(self).queue@.len() == 1
                    &&& notification_is(
                        final(self).queue@[0],
                        bytes@.take(pl),
                        pl < len,
                        true,
                        final(self).dropped_notifications as int,
                    )
                } else {
                    let drop = q.len() >= queue_limit && q.len() > 0;
                    let kept = if drop {
                        q.drop_first()
                    } else {
                        q
                    };
                    &&& r.1 == (if drop {
                        q[0].payload@.len() as int
                    } else {
                        0
                    })
                    &&& r.2 == (if drop {
                        1int
                    } else {
                        0
                    })
                    &&& final(self).dropped_notifications == (if drop {
                        sat_u64(old(self).dropped_notifications + 1)
                    } else {
                        old(self).dropped_notifications as int
                    })
                    &&& final(self).notifications_this_tick == (if old(
                        self,
                    ).notifications_this_tick < u32::MAX {
                        old(self).notifications_this_tick + 1
                    } else {
                        u32::MAX as int
                    })
                    &&& final(self).queue@.len() == kept.len() + 1
                    &&& final(self).queue@.drop_last() == kept
                    &&& notification_is(
                        final(self).queue@.last(),
                        bytes@.take(pl),
                        pl < len,
                        false,
                        final(self).dropped_notifications as int,
                    )
                }
            }),
    {
        let len = bytes.len();
        let payload_len = if len < self.max_payload_bytes {
            len
        } else {
            self.max_payload_bytes
        };
        let payload = slice_to_vec(slice_subrange(bytes, 0, payload_len));
        assert(payload@ =~= bytes@.take(payload_len as int));
        let truncated = payload_len < len;
        if rate_limited {
            let released = self.queued_bytes();
            let dropped: u64 = if self.queue.len() > 1 {
                self.queue.len() as u64
            } else {
                1
            };
            self.queue.clear();
            self.dropped_notifications = self.dropped_notifications.saturating_add(dropped);
            self.dropped_bytes = self.dropped_bytes.saturating_add((len - payload_len) as u64);
            self.queue.push_back(
                Notification {
                    payload,
                    truncated,
                    coalesced: true,
                    dropped_notifications: self.dropped_notifications,
                },
            );
            return (payload_len, released, dropped);
        }
        let mut released: usize = 0;
        let mut dropped: u64 = 0;
        if self.queue.len() >= queue_limit {
            match self.queue.pop_front() {
                Some(old) => {
                    released = old.payload.len();
                    dropped = 1;
                    self.dropped_notifications = self.dropped_notifications.saturating_add(1);
                },
                None => {},
            }
        }
        self.dropped_bytes = self.dropped_bytes.saturating_add((len - payload_len) as u64);
        self.notifications_this_tick = self.notifications_this_tick.saturating_add(1);
        self.queue.push_back(
            Notification {
                payload,
                truncated,
                coalesced: false,
                dropped_notifications: self.dropped_notifications,
            },
        );
        (payload_len, released, dropped)
    }
}

} // verus!
