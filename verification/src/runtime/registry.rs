//! The instance registry: life cycle, session bindings, resource locks,
//! transmit queues, receive buffers, subscriptions and the global byte
//! budgets, driven without real I/O.
use std::collections::VecDeque;
use vstd::prelude::*;

use crate::model::config::{
    ConfigSnapshot, InstanceStats, InstanceSummary, ResourceSummary, SerialConfig, TcpConfig,
    TcpMode, UdpConfig, VisaConfig, is_zero_stats, validate_instance_type,
};
use crate::model::error::{
    DetailValue, DetailView, DomainError, ErrorCategory, ErrorCode, ErrorDetails,
    LastErrorSummary, same_last_error, text_views,
};
use crate::model::ids::{HandleId, IdGenerator, Timestamp, handle_text, lemma_handle_text_injective};
use crate::model::limits::{RuntimeLimits, budget_error, budget_exceeded};
use crate::model::state::{InstanceState, InstanceType, state_name};
use crate::runtime::buffers::{ClearResult, ClearTarget, PullResult};
use crate::runtime::locks::{
    ResourceKey, ResourceLockEntry, ResourceLockState, lock_error, resource_lock_error,
    serial_key, tcp_listen_key, udp_bind_key, visa_key,
};
use crate::runtime::tasks::{TaskExit, TaskGroup, TaskGroupState};
use crate::runtime::queues::{FlushResult, SendItem, SendResult};
use crate::runtime::subscriptions::{
    Notification, SubscriptionResult, Subscriber, UnsubscribeResult, payload_total,
};
use crate::util::sums::{
    lemma_sum_drop_first, lemma_sum_nonneg, lemma_sum_push, lemma_sum_remove, lemma_sum_update,
    sum_of,
};

verus! {

broadcast use vstd::std_specs::vecdeque::group_vec_dequeue_axioms;

/// One registered instance and everything it buffers.
#[derive(Debug)]
pub struct RuntimeInstance {
    pub handle_id: HandleId,
    pub instance_type: InstanceType,
    pub state: InstanceState,
    pub config: Option<ConfigSnapshot>,
    pub stats: InstanceStats,
    pub task_group: Option<crate::runtime::tasks::TaskGroup>,
    pub tx_queue: VecDeque<SendItem>,
    pub rx_buffer: VecDeque<u8>,
    pub subscribers: Vec<(String, Subscriber)>,
    pub notification_tick: Option<u64>,
    pub notifications_this_tick: u32,
    pub last_error: Option<LastErrorSummary>,
}

/// Bytes waiting in a transmit queue.
pub open spec fn tx_total(q: Seq<SendItem>) -> int {
    sum_of(q, |it: SendItem| it.bytes@.len() as int)
}

/// Payload bytes waiting in the queues of subscribers.
pub open spec fn subs_total(s: Seq<(String, Subscriber)>) -> int {
    sum_of(s, |p: (String, Subscriber)| payload_total(p.1.queue@))
}

/// Bytes an instance holds against the queued-bytes budget.
pub open spec fn queued_of(i: RuntimeInstance) -> int {
    tx_total(i.tx_queue@) + subs_total(i.subscribers@)
}

/// Bytes an instance holds against the buffer budget.
pub open spec fn rx_of(i: RuntimeInstance) -> int {
    i.rx_buffer@.len() as int
}

/// All queued bytes of the registered instances.
pub open spec fn total_queued(s: Seq<RuntimeInstance>) -> int {
    sum_of(s, |i: RuntimeInstance| queued_of(i))
}

/// All buffered receive bytes of the registered instances.
pub open spec fn total_rx(s: Seq<RuntimeInstance>) -> int {
    sum_of(s, |i: RuntimeInstance| rx_of(i))
}

/// The position of the subscriber of `session`, if any.
pub open spec fn has_session(s: Seq<(String, Subscriber)>, session: Seq<char>) -> bool {
    exists|k: int| 0 <= k < s.len() && #[trigger] s[k].0@ == session
}

/// An instance's counters agree with its buffers, and each session
/// subscribes at most once.
pub open spec fn instance_wf(i: RuntimeInstance) -> bool {
    &&& i.stats.tx_queue_items == i.tx_queue@.len()
    &&& i.stats.rx_buffer_bytes == i.rx_buffer@.len()
    &&& i.stats.subscriber_count == i.subscribers@.len()
    &&& forall|a: int, b: int|
        0 <= a < b < i.subscribers@.len() ==> #[trigger] i.subscribers@[a].0@
            != #[trigger] i.subscribers@[b].0@
}

/// Some instance of `s` has the handle `h`.
pub open spec fn has_handle(s: Seq<RuntimeInstance>, h: Seq<char>) -> bool {
    exists|k: int| 0 <= k < s.len() && #[trigger] s[k].handle_id@ == h
}

/// The position of the instance with handle `h`.
pub open spec fn slot_of(s: Seq<RuntimeInstance>, h: Seq<char>) -> int {
    choose|k: int| 0 <= k < s.len() && #[trigger] s[k].handle_id@ == h
}

/// What the tools report for an instance `i`, in `state`.
#[verifier::opaque]
pub open spec fn summarizes(s: InstanceSummary, i: RuntimeInstance, state: InstanceState) -> bool {
    &&& s.handle_id@ == i.handle_id@
    &&& s.instance_type == i.instance_type
    &&& s.state == state
    &&& s.config == i.config
    &&& s.stats == i.stats
    &&& s.peers is None
    &&& (s.resource is Some <==> i.config is Some)
    &&& (s.last_error is Some <==> i.last_error is Some)
    &&& (s.last_error matches Some(a) ==> same_last_error(a, i.last_error.unwrap()))
}

/// `i`'s handle is one that `ids` has issued for its type.
pub open spec fn handle_issued(ids: IdGenerator, i: RuntimeInstance) -> bool {
    exists|k: nat|
        1 <= k <= ids.handles_issued(i.instance_type) && #[trigger] handle_text(i.instance_type, k)
            == i.handle_id@
}

/// No two instances share a handle.
pub open spec fn distinct_handles(s: Seq<RuntimeInstance>) -> bool {
    forall|a: int, b: int|
        0 <= a < b < s.len() ==> #[trigger] s[a].handle_id@ != #[trigger] s[b].handle_id@
}

/// Every handle was issued by `ids`.
pub open spec fn all_issued(ids: IdGenerator, s: Seq<RuntimeInstance>) -> bool {
    forall|a: int| 0 <= a < s.len() ==> #[trigger] handle_issued(ids, s[a])
}

/// Every instance is consistent.
pub open spec fn all_instances_wf(s: Seq<RuntimeInstance>) -> bool {
    forall|a: int| 0 <= a < s.len() ==> #[trigger] instance_wf(s[a])
}

/// No key appears twice.
pub open spec fn distinct_keys<V>(s: Seq<(Seq<char>, V)>) -> bool {
    forall|a: int, b: int| 0 <= a < b < s.len() ==> #[trigger] s[a].0 != #[trigger] s[b].0
}

/// Replacing an instance by one with the same handle and type, itself
/// consistent, keeps the instance invariants and moves the totals by the
/// difference.
pub proof fn lemma_replace_instance(
    s: Seq<RuntimeInstance>,
    k: int,
    x: RuntimeInstance,
    ids: IdGenerator,
)
    requires
        0 <= k < s.len(),
        x.handle_id@ == s[k].handle_id@,
        x.instance_type == s[k].instance_type,
        instance_wf(x),
        distinct_handles(s),
        all_issued(ids, s),
        all_instances_wf(s),
    ensures
        distinct_handles(s.update(k, x)),
        all_issued(ids, s.update(k, x)),
        all_instances_wf(s.update(k, x)),
        total_queued(s.update(k, x)) == total_queued(s) - queued_of(s[k]) + queued_of(x),
        total_rx(s.update(k, x)) == total_rx(s) - rx_of(s[k]) + rx_of(x),
{
    let t = s.update(k, x);
    assert forall|a: int, b: int| 0 <= a < b < t.len() implies #[trigger] t[a].handle_id@
        != #[trigger] t[b].handle_id@ by {
        assert(t[a].handle_id@ == s[a].handle_id@ && t[b].handle_id@ == s[b].handle_id@);
    }
    assert forall|a: int| 0 <= a < t.len() implies #[trigger] handle_issued(ids, t[a]) by {
        if a != k {
            assert(t[a] == s[a]);
        } else {
            assert(handle_issued(ids, s[k]));
        }
    }
    assert forall|a: int| 0 <= a < t.len() implies #[trigger] instance_wf(t[a]) by {
        if a != k {
            assert(t[a] == s[a]);
        }
    }
    lemma_sum_update(s, k, x, |i: RuntimeInstance| queued_of(i));
    lemma_sum_update(s, k, x, |i: RuntimeInstance| rx_of(i));
}

/// How many received bytes an instance keeps: the smaller of the buffer
/// limit and the global buffer budget.
pub open spec fn keep_limit(l: RuntimeLimits) -> int {
    if l.rx_buffer_max_bytes < l.max_total_buffer_bytes {
        l.rx_buffer_max_bytes as int
    } else {
        l.max_total_buffer_bytes as int
    }
}

/// No receive buffer holds more than `m` bytes.
pub open spec fn rx_within(s: Seq<RuntimeInstance>, m: int) -> bool {
    forall|a: int| 0 <= a < s.len() ==> #[trigger] s[a].rx_buffer@.len() <= m
}

proof fn lemma_replace_rx(s: Seq<RuntimeInstance>, k: int, x: RuntimeInstance, m: int)
    requires
        0 <= k < s.len(),
        rx_within(s, m),
        x.rx_buffer@.len() <= s[k].rx_buffer@.len() || x.rx_buffer@.len() <= m,
    ensures
        rx_within(s.update(k, x), m),
{
    assert(s[k].rx_buffer@.len() <= m);
    assert forall|a: int| 0 <= a < s.len() implies #[trigger] s.update(k, x)[a].rx_buffer@.len() <= m by {
        if a != k {
            assert(s.update(k, x)[a] == s[a]);
        }
    }
}

proof fn lemma_remove_rx(s: Seq<RuntimeInstance>, k: int, m: int)
    requires
        0 <= k < s.len(),
        rx_within(s, m),
    ensures
        rx_within(s.remove(k), m),
{
    assert forall|a: int| 0 <= a < s.len() - 1 implies #[trigger] s.remove(k)[a].rx_buffer@.len() <= m by {
        let a2 = if a < k { a } else { a + 1 };
        assert(s.remove(k)[a] == s[a2]);
    }
}

/// The registry of instances and the state they share.
pub struct RuntimeRegistry {
    instances: Vec<RuntimeInstance>,
    released_handles: Vec<String>,
    session_bindings: Vec<(String, HandleId)>,
    resource_locks: Vec<(ResourceKey, ResourceLockEntry)>,
    ids: IdGenerator,
    limits: RuntimeLimits,
    buffer_bytes_budget: usize,
    queued_bytes_budget: usize,
    global_notification_tick: Option<u64>,
    global_notifications_this_tick: u32,
}

/// The answer to binding a session to an instance.
#[derive(Debug, Clone)]
pub struct SessionBindingResult {
    pub previous_handle_id: Option<HandleId>,
}

impl RuntimeRegistry {
    pub closed spec fn instances(&self) -> Seq<RuntimeInstance> {
        self.instances@
    }

    /// Handles of released instances.
    pub closed spec fn released(&self) -> Seq<Seq<char>> {
        self.released_handles@.map_values(|s: String| s@)
    }

    /// Sessions and the handles they are bound to.
    pub closed spec fn bindings(&self) -> Seq<(Seq<char>, Seq<char>)> {
        self.session_bindings@.map_values(|b: (String, HandleId)| (b.0@, b.1@))
    }

    /// Resource keys and their locks.
    pub closed spec fn locks(&self) -> Seq<(Seq<char>, ResourceLockEntry)> {
        self.resource_locks@.map_values(|l: (ResourceKey, ResourceLockEntry)| (l.0@, l.1))
    }

    pub closed spec fn limits(&self) -> RuntimeLimits {
        self.limits
    }

    pub closed spec fn ids(&self) -> IdGenerator {
        self.ids
    }

    /// Bytes reserved against `max_total_queued_bytes`.
    pub closed spec fn queued_budget(&self) -> int {
        self.queued_bytes_budget as int
    }

    /// Bytes reserved against the receive buffers.
    pub closed spec fn buffer_budget(&self) -> int {
        self.buffer_bytes_budget as int
    }

    /// The global notification window: its tick and the notifications sent in it.
    pub closed spec fn global_window(&self) -> (Option<u64>, u32) {
        (self.global_notification_tick, self.global_notifications_this_tick)
    }

    /// The registry's invariant: handles are distinct and were issued by its
    /// generator; every instance is consistent; sessions and resource keys
    /// appear at most once; the budgets never exceed what is held, and the
    /// queued budget never exceeds its limit.
    pub closed spec fn wf(&self) -> bool {
        &&& distinct_handles(self.instances@)
        &&& all_issued(self.ids, self.instances@)
        &&& all_instances_wf(self.instances@)
        &&& distinct_keys(self.bindings())
        &&& distinct_keys(self.locks())
        &&& self.queued_bytes_budget <= total_queued(self.instances@)
        &&& self.queued_bytes_budget <= self.limits.max_total_queued_bytes
        &&& self.buffer_bytes_budget <= total_rx(self.instances@)
        &&& rx_within(self.instances@, keep_limit(self.limits))
    }

    /// The code a lookup of an unknown handle fails with.
    pub open spec fn missing_code(&self, h: Seq<char>) -> ErrorCode {
        if self.released().contains(h) {
            ErrorCode::HandleReleased
        } else {
            ErrorCode::HandleNotFound
        }
    }

    /// `e` is the answer to a lookup of the unknown handle `h`.
    pub open spec fn missing_error(&self, h: Seq<char>, e: DomainError) -> bool {
        &&& e.category == ErrorCategory::HandleNotFound
        &&& e.code == self.missing_code(h)
        &&& !e.retryable
        &&& e.details@ == seq![("handle_id"@, DetailView::Text(h))]
    }

    /// The instance with handle `h`, when registered.
    pub open spec fn instance_of(&self, h: Seq<char>) -> RuntimeInstance {
        self.instances()[slot_of(self.instances(), h)]
    }

    /// Nothing but the instances changed.
    pub open spec fn same_but_instances(&self, other: &RuntimeRegistry) -> bool {
        &&& self.released() == other.released()
        &&& self.bindings() == other.bindings()
        &&& self.locks() == other.locks()
        &&& self.limits() == other.limits()
        &&& self.ids() == other.ids()
        &&& self.global_window() == other.global_window()
    }

    /// An empty registry with the given limits and id date.
    pub fn new_for_tests_with_limits(date: &str, limits: RuntimeLimits) -> (r: Self)
        ensures
            r.wf(),
            r.instances().len() == 0,
            r.released().len() == 0,
            r.bindings().len() == 0,
            r.locks().len() == 0,
            r.limits() == limits,
            r.ids().date() == date@,
            forall|t: InstanceType| r.ids().handles_issued(t) == 0,
            r.queued_budget() == 0,
            r.buffer_budget() == 0,
    {
        let r = RuntimeRegistry {
            instances: Vec::new(),
            released_handles: Vec::new(),
            session_bindings: Vec::new(),
            resource_locks: Vec::new(),
            ids: IdGenerator::new_for_tests(date),
            limits,
            buffer_bytes_budget: 0,
            queued_bytes_budget: 0,
            global_notification_tick: None,
            global_notifications_this_tick: 0,
        };
        assert(r.released() =~= Seq::<Seq<char>>::empty());
        assert(r.bindings() =~= Seq::<(Seq<char>, Seq<char>)>::empty());
        assert(r.locks() =~= Seq::<(Seq<char>, ResourceLockEntry)>::empty());
        r
    }

    /// An empty registry with the default limits whose ids carry `date`.
    pub fn new(date: &str) -> (r: Self)
        ensures
            r.wf(),
            r.instances().len() == 0,
            r.released().len() == 0,
            r.bindings().len() == 0,
            r.locks().len() == 0,
            crate::model::limits::is_default_limits(r.limits()),
            r.ids().date() == date@,
            forall|t: InstanceType| r.ids().handles_issued(t) == 0,
            r.queued_budget() == 0,
            r.buffer_budget() == 0,
    {
        Self::new_for_tests_with_limits(date, RuntimeLimits::default())
    }

    /// An empty registry with the default limits.
    pub fn new_for_tests(date: &str) -> (r: Self)
        ensures
            r.wf(),
            r.instances().len() == 0,
            r.released().len() == 0,
            r.bindings().len() == 0,
            r.locks().len() == 0,
            crate::model::limits::is_default_limits(r.limits()),
            r.ids().date() == date@,
            forall|t: InstanceType| r.ids().handles_issued(t) == 0,
            r.queued_budget() == 0,
            r.buffer_budget() == 0,
    {
        Self::new_for_tests_with_limits(date, RuntimeLimits::default())
    }

    /// Finds the slot of handle `h`.
    fn find(&self, h: &HandleId) -> (r: Option<usize>)
        requires
            self.wf(),
        ensures
            match r {
                Some(k) => k < self.instances().len() && self.instances()[k as int].handle_id@
                    == h@ && slot_of(self.instances(), h@) == k && has_handle(
                    self.instances(),
                    h@,
                ),
                None => !has_handle(self.instances(), h@),
            },
    {
        let mut k: usize = 0;
        while k < self.instances.len()
            invariant
                self.wf(),
                k <= self.instances@.len(),
                forall|j: int| 0 <= j < k ==> self.instances@[j].handle_id@ != h@,
            decreases self.instances@.len() - k,
        {
            if self.instances[k].handle_id.same_as(h) {
                proof {
                    let c = slot_of(self.instances@, h@);
                    assert(has_handle(self.instances@, h@));
                    if c != k {
                        if c < k {
                            assert(self.instances@[c].handle_id@ != self.instances@[k as int].handle_id@);
                        } else {
                            assert(self.instances@[k as int].handle_id@ != self.instances@[c].handle_id@);
                        }
                    }
                }
                return Some(k);
            }
            k = k + 1;
        }
        None
    }

    fn is_released(&self, h: &HandleId) -> (b: bool)
        ensures
            b == self.released().contains(h@),
    {
        let mut k: usize = 0;
        while k < self.released_handles.len()
            invariant
                k <= self.released_handles@.len(),
                forall|j: int| 0 <= j < k ==> self.released_handles@[j]@ != h@,
            decreases self.released_handles@.len() - k,
        {
            if crate::util::text::str_eq(self.released_handles[k].as_str(), h.as_str()) {
                assert(self.released()[k as int] == h@);
                return true;
            }
            k = k + 1;
        }
        proof {
            if self.released().contains(h@) {
                let j = choose|j: int| 0 <= j < self.released().len() && self.released()[j] == h@;
                assert(self.released_handles@[j]@ == h@);
            }
        }
        false
    }

    fn missing_handle_error(&self, h: &HandleId) -> (e: DomainError)
        ensures
            self.missing_error(h@, e),
    {
        let code = if self.is_released(h) {
            ErrorCode::HandleReleased
        } else {
            ErrorCode::HandleNotFound
        };
        let e = DomainError::new(
            ErrorCategory::HandleNotFound,
            code,
            "Instance handle does not refer to an active instance.",
            "Call instance_list to inspect active instances, or create a new instance.",
            false,
        ).with_detail("handle_id", DetailValue::Text(h.as_str().to_owned()));
        assert(e.details@ =~= seq![("handle_id"@, DetailView::Text(h@))]);
        e
    }
}

/// The resource an instance's configuration names, as reported.
pub open spec fn resource_matches(r: ResourceSummary, c: ConfigSnapshot) -> bool {
    match c {
        ConfigSnapshot::Serial(c) => r.kind@ == "serial"@ && r.display@ == c.port@,
        ConfigSnapshot::Tcp(c) => match c.mode {
            TcpMode::Client => r.kind@ == "tcp-client"@ && r.display@
                == crate::model::config::host_port_text(c.host@, c.port as nat),
            TcpMode::Listen => r.kind@ == "tcp-listen"@ && r.display@
                == crate::model::config::host_port_text(c.host@, c.port as nat),
        },
        ConfigSnapshot::Udp(c) => r.kind@ == "udp"@ && r.display@
            == crate::model::config::udp_display(
            c.bind_host@,
            c.bind_port as nat,
            crate::model::config::opt_string(c.remote_host),
            crate::model::config::opt_port(c.remote_port),
        ),
        ConfigSnapshot::Visa(c) => r.kind@ == "visa"@ && r.display@ == c.resource_address@
            && r.resource_class is None,
    }
}

fn resource_summary(config: &ConfigSnapshot) -> (r: ResourceSummary)
    ensures
        resource_matches(r, *config),
{
    match config {
        ConfigSnapshot::Serial(c) => ResourceSummary::serial(c.port.as_str()),
        ConfigSnapshot::Tcp(c) => match c.mode {
            TcpMode::Client => ResourceSummary::tcp_client(c.host.as_str(), c.port),
            TcpMode::Listen => ResourceSummary::tcp_listen(c.host.as_str(), c.port),
        },
        ConfigSnapshot::Udp(c) => {
            let remote = match &c.remote_host {
                Some(h) => Some(h.as_str()),
                None => None,
            };
            ResourceSummary::udp(c.bind_host.as_str(), c.bind_port, remote, c.remote_port)
        },
        ConfigSnapshot::Visa(c) => ResourceSummary::visa(c.resource_address.as_str(), None),
    }
}

/// A fresh instance: created, unconfigured, with empty buffers.
pub open spec fn fresh_instance(i: RuntimeInstance, h: Seq<char>, t: InstanceType) -> bool {
    &&& i.handle_id@ == h
    &&& i.instance_type == t
    &&& i.state == InstanceState::Created
    &&& i.config is None
    &&& is_zero_stats(i.stats)
    &&& i.task_group is None
    &&& i.tx_queue@.len() == 0
    &&& i.rx_buffer@.len() == 0
    &&& i.subscribers@.len() == 0
    &&& i.last_error is None
}

impl RuntimeInstance {
    fn new(handle_id: HandleId, instance_type: InstanceType) -> (i: Self)
        ensures
            fresh_instance(i, handle_id@, instance_type),
            instance_wf(i),
            queued_of(i) == 0,
            rx_of(i) == 0,
    {
        let i = RuntimeInstance {
            handle_id,
            instance_type,
            state: InstanceState::Created,
            config: None,
            stats: InstanceStats::default(),
            task_group: None,
            tx_queue: VecDeque::new(),
            rx_buffer: VecDeque::new(),
            subscribers: Vec::new(),
            notification_tick: None,
            notifications_this_tick: 0,
            last_error: None,
        };
        assert(tx_total(i.tx_queue@) == 0);
        assert(subs_total(i.subscribers@) == 0);
        i
    }

    /// The report of this instance in `state`.
    fn summary_in(&self, state: InstanceState) -> (s: InstanceSummary)
        ensures
            summarizes(s, *self, state),
            s.resource matches Some(r) ==> resource_matches(r, self.config.unwrap()),
    {
        reveal(summarizes);
        let (resource, config) = match &self.config {
            Some(c) => (Some(resource_summary(c)), Some(c.duplicate())),
            None => (None, None),
        };
        InstanceSummary {
            handle_id: self.handle_id.duplicate(),
            instance_type: self.instance_type,
            state,
            resource,
            config,
            stats: self.stats.duplicate(),
            peers: None,
            last_error: match &self.last_error {
                Some(e) => Some(e.duplicate()),
                None => None,
            },
        }
    }

    fn to_summary(&self) -> (s: InstanceSummary)
        ensures
            summarizes(s, *self, self.state),
            s.resource matches Some(r) ==> resource_matches(r, self.config.unwrap()),
    {
        self.summary_in(self.state)
    }
}

/// Every instance of `s` is reported, in strictly increasing handle order.
pub open spec fn lists(r: Seq<InstanceSummary>, s: Seq<RuntimeInstance>) -> bool {
    &&& r.len() == s.len()
    &&& forall|j: int|
        #![trigger s[j]]
        0 <= j < s.len() ==> exists|k: int|
            0 <= k < r.len() && #[trigger] summarizes(r[k], s[j], s[j].state)
    &&& forall|k: int|
        0 <= k < r.len() - 1 ==> crate::util::text::text_lt(
            #[trigger] r[k].handle_id@,
            r[k + 1].handle_id@,
        )
}

/// `out` lists the first `i` instances of `s`, in strictly increasing
/// handle order: `out[k]` reports `s[src[k]]`, and `s[j]` is reported at
/// `out[pos[j]]`.
pub open spec fn partial_listing(
    out: Seq<InstanceSummary>,
    s: Seq<RuntimeInstance>,
    i: int,
    src: Seq<int>,
    pos: Seq<int>,
) -> bool {
    &&& out.len() == i
    &&& src.len() == i
    &&& pos.len() == i
    &&& forall|k: int|
        0 <= k < i ==> 0 <= #[trigger] src[k] < i && summarizes(out[k], s[src[k]], s[src[k]].state)
    &&& forall|j: int|
        0 <= j < i ==> 0 <= #[trigger] pos[j] < i && summarizes(out[pos[j]], s[j], s[j].state)
    &&& forall|k: int|
        0 <= k < out.len() - 1 ==> crate::util::text::text_lt(
            #[trigger] out[k].handle_id@,
            out[k + 1].handle_id@,
        )
}

proof fn lemma_summarizes_handle(s: InstanceSummary, i: RuntimeInstance, st: InstanceState)
    requires
        summarizes(s, i, st),
    ensures
        s.handle_id@ == i.handle_id@,
{
    reveal(summarizes);
}

proof fn lemma_insert_sorted(prev: Seq<InstanceSummary>, p: int, summary: InstanceSummary)
    requires
        forall|k: int|
            0 <= k < prev.len() - 1 ==> crate::util::text::text_lt(
                #[trigger] prev[k].handle_id@,
                prev[k + 1].handle_id@,
            ),
        forall|k: int| 0 <= k < prev.len() ==> #[trigger] prev[k].handle_id@ != summary.handle_id@,
        0 <= p <= prev.len(),
        forall|k: int| 0 <= k < p ==> !crate::util::text::text_lt(
            summary.handle_id@,
            #[trigger] prev[k].handle_id@,
        ),
        p < prev.len() ==> crate::util::text::text_lt(summary.handle_id@, prev[p].handle_id@),
    ensures
        ({
            let cur = prev.insert(p, summary);
            forall|k: int|
                0 <= k < cur.len() - 1 ==> crate::util::text::text_lt(
                    #[trigger] cur[k].handle_id@,
                    cur[k + 1].handle_id@,
                )
        }),
{
    let cur = prev.insert(p, summary);
    assert forall|k: int| 0 <= k < cur.len() - 1 implies crate::util::text::text_lt(
        #[trigger] cur[k].handle_id@,
        cur[k + 1].handle_id@,
    ) by {
        if k + 1 < p {
            assert(cur[k] == prev[k] && cur[k + 1] == prev[k + 1]);
        } else if k + 1 == p {
            assert(cur[k] == prev[k]);
            assert(prev[k].handle_id@ != summary.handle_id@);
            assert(!crate::util::text::text_lt(summary.handle_id@, prev[k].handle_id@));
            crate::util::text::lemma_text_lt_total(prev[k].handle_id@, summary.handle_id@);
        } else if k == p {
            assert(cur[k + 1] == prev[k]);
        } else {
            assert(cur[k] == prev[k - 1] && cur[k + 1] == prev[k]);
        }
    }
}

/// The positions of the listed instances once an entry is inserted at `p`.
pub open spec fn shifted(pos: Seq<int>, p: int) -> Seq<int> {
    pos.map_values(|x: int| if x >= p { x + 1 } else { x })
}

proof fn lemma_insert_listing(
    prev: Seq<InstanceSummary>,
    s: Seq<RuntimeInstance>,
    i: int,
    src: Seq<int>,
    pos: Seq<int>,
    p: int,
    summary: InstanceSummary,
)
    requires
        0 <= i < s.len(),
        partial_listing(prev, s, i, src, pos),
        forall|a: int, b: int|
            0 <= a < b < s.len() ==> #[trigger] s[a].handle_id@ != #[trigger] s[b].handle_id@,
        summarizes(summary, s[i], s[i].state),
        0 <= p <= prev.len(),
        forall|k: int| 0 <= k < p ==> !crate::util::text::text_lt(
            summary.handle_id@,
            #[trigger] prev[k].handle_id@,
        ),
        p < prev.len() ==> crate::util::text::text_lt(summary.handle_id@, prev[p].handle_id@),
    ensures
        partial_listing(
            prev.insert(p, summary),
            s,
            i + 1,
            src.insert(p, i),
            shifted(pos, p).push(p),
        ),
{
    let cur = prev.insert(p, summary);
    let nsrc = src.insert(p, i);
    let npos = shifted(pos, p).push(p);
    lemma_summarizes_handle(summary, s[i], s[i].state);
    assert forall|k: int| 0 <= k < prev.len() implies #[trigger] prev[k].handle_id@ != summary.handle_id@ by {
        let j = src[k];
        lemma_summarizes_handle(prev[k], s[j], s[j].state);
        assert(s[j].handle_id@ != s[i].handle_id@);
    }
    lemma_insert_sorted(prev, p, summary);
    assert forall|k: int|
        0 <= k < i + 1 implies 0 <= #[trigger] nsrc[k] < i + 1 && summarizes(
            cur[k],
            s[nsrc[k]],
            s[nsrc[k]].state,
        ) by {
        if k < p {
            assert(cur[k] == prev[k] && nsrc[k] == src[k]);
        } else if k > p {
            assert(cur[k] == prev[k - 1] && nsrc[k] == src[k - 1]);
        }
    }
    assert forall|j: int|
        0 <= j < i + 1 implies 0 <= #[trigger] npos[j] < i + 1 && summarizes(
            cur[npos[j]],
            s[j],
            s[j].state,
        ) by {
        if j < i {
            let x = pos[j];
            assert(npos[j] == (if x >= p { x + 1 } else { x }));
            if x >= p {
                assert(cur[x + 1] == prev[x]);
            } else {
                assert(cur[x] == prev[x]);
            }
        }
    }
}

impl RuntimeRegistry {
    /// Registers a new instance of type `t` with the next handle of that type.
    pub fn create_instance(&mut self, instance_type: InstanceType) -> (r: Result<
        InstanceSummary,
        DomainError,
    >)
        requires
            old(self).wf(),
            old(self).ids().handles_issued(instance_type) < u64::MAX,
        ensures
            final(self).wf(),
            match r {
                Ok(s) => {
                    let h = handle_text(instance_type, old(self).ids().handles_issued(instance_type) + 1);
                    &&& old(self).instances().len() < old(self).limits().max_instances
                    &&& final(self).instances().len() == old(self).instances().len() + 1
                    &&& final(self).instances().drop_last() == old(self).instances()
                    &&& fresh_instance(final(self).instances().last(), h, instance_type)
                    &&& summarizes(s, final(self).instances().last(), InstanceState::Created)
                    &&& final(self).ids().handles_issued(instance_type) == old(self).ids().handles_issued(
                        instance_type,
                    ) + 1
                    &&& forall|t: InstanceType|
                        t != instance_type ==> final(self).ids().handles_issued(t) == old(self).ids().handles_issued(t)
                    &&& final(self).released() == old(self).released()
                    &&& final(self).bindings() == old(self).bindings()
                    &&& final(self).locks() == old(self).locks()
                    &&& final(self).limits() == old(self).limits()
                    &&& final(self).queued_budget() == old(self).queued_budget()
                    &&& final(self).buffer_budget() == old(self).buffer_budget()
                },
                Err(e) => {
                    &&& old(self).instances().len() >= old(self).limits().max_instances
                    &&& budget_error(
                        e,
                        ErrorCode::InvalidRange,
                        true,
                        old(self).limits().max_instances as int,
                        crate::runtime::subscriptions::sat_usize(old(self).instances().len() + 1int),
                    )
                    &&& *final(self) == *old(self)
                },
            },
    {
        if self.instances.len() >= self.limits.max_instances {
            return Err(
                budget_exceeded(
                    ErrorCode::InvalidRange,
                    "Instance limit exceeded.",
                    "Reduce payload size, pull or clear buffered data, then retry.",
                    true,
                    self.limits.max_instances,
                    self.instances.len().saturating_add(1),
                ),
            );
        }
        let ghost old_ids = self.ids;
        let ghost old_instances = self.instances@;
        let handle_id = self.ids.next_handle_id(instance_type);
        let instance = RuntimeInstance::new(handle_id, instance_type);
        let summary = instance.to_summary();
        self.instances.push(instance);
        proof {
            let s = self.instances@;
            let n = old_instances.len();
            let k_new = old_ids.handles_issued(instance_type) + 1;
            assert(s.drop_last() =~= old_instances);
            assert forall|a: int, b: int|
                0 <= a < b < s.len() implies #[trigger] s[a].handle_id@ != #[trigger] s[b].handle_id@ by {
                if b == n {
                    assert(handle_issued(old_ids, old_instances[a]));
                    assert(s[a] == old_instances[a]);
                    assert(handle_issued(old_ids, old_instances[a]));
                    let t = s[a].instance_type;
                    let k = choose|k: nat|
                        1 <= k <= old_ids.handles_issued(t) && #[trigger] handle_text(t, k)
                            == old_instances[a].handle_id@;
                    if s[a].handle_id@ == s[b].handle_id@ {
                        lemma_handle_text_injective(t, k, instance_type, k_new);
                    }
                } else {
                    assert(s[a] == old_instances[a] && s[b] == old_instances[b]);
                }
            }
            assert forall|a: int| 0 <= a < s.len() implies #[trigger] handle_issued(self.ids, s[a]) by {
                if a < n {
                    assert(s[a] == old_instances[a]);
                    assert(handle_issued(old_ids, old_instances[a]));
                    let t = s[a].instance_type;
                    let k = choose|k: nat|
                        1 <= k <= old_ids.handles_issued(t) && #[trigger] handle_text(t, k)
                            == old_instances[a].handle_id@;
                    assert(1 <= k <= self.ids.handles_issued(t));
                } else {
                    assert(handle_text(instance_type, k_new) == s[a].handle_id@);
                }
            }
            assert forall|a: int| 0 <= a < s.len() implies #[trigger] instance_wf(s[a]) by {
                if a < n {
                    assert(s[a] == old_instances[a]);
                }
            }
            lemma_sum_push(old_instances, s.last(), |i: RuntimeInstance| queued_of(i));
            lemma_sum_push(old_instances, s.last(), |i: RuntimeInstance| rx_of(i));
            assert forall|a: int| 0 <= a < s.len() implies #[trigger] s[a].rx_buffer@.len()
                <= keep_limit(self.limits) by {
                if a < n {
                    assert(s[a] == old_instances[a]);
                }
            }
        }
        Ok(summary)
    }

    /// Finds where `summary` goes in the strictly increasing `out`.
    fn insertion_point(out: &Vec<InstanceSummary>, summary: &InstanceSummary) -> (p: usize)
        ensures
            p <= out@.len(),
            forall|k: int| 0 <= k < p ==> !crate::util::text::text_lt(
                summary.handle_id@,
                #[trigger] out@[k].handle_id@,
            ),
            p < out@.len() ==> crate::util::text::text_lt(summary.handle_id@, out@[p as int].handle_id@),
    {
        let mut p: usize = 0;
        while p < out.len()
            invariant
                p <= out@.len(),
                forall|k: int| 0 <= k < p ==> !crate::util::text::text_lt(
                    summary.handle_id@,
                    #[trigger] out@[k].handle_id@,
                ),
            decreases out@.len() - p,
        {
            if crate::util::text::text_less(summary.handle_id.as_str(), out[p].handle_id.as_str()) {
                return p;
            }
            p = p + 1;
        }
        p
    }

    /// Reports every instance, ordered by handle.
    pub fn list_instances(&self) -> (r: Vec<InstanceSummary>)
        requires
            self.wf(),
        ensures
            lists(r@, self.instances()),
    {
        let mut out: Vec<InstanceSummary> = Vec::new();
        let ghost mut src: Seq<int> = Seq::empty();
        let ghost mut pos: Seq<int> = Seq::empty();
        let mut i: usize = 0;
        while i < self.instances.len()
            invariant
                self.wf(),
                i <= self.instances@.len(),
                partial_listing(out@, self.instances@, i as int, src, pos),
            decreases self.instances@.len() - i,
        {
            let summary = self.instances[i].to_summary();
            let p = Self::insertion_point(&out, &summary);
            let ghost prev = out@;
            out.insert(p, summary);
            proof {
                lemma_insert_listing(prev, self.instances@, i as int, src, pos, p as int, summary);
                src = src.insert(p as int, i as int);
                pos = shifted(pos, p as int).push(p as int);
            }
            i = i + 1;
        }
        proof {
            let s = self.instances@;
            assert forall|j: int|
                #![trigger s[j]]
                0 <= j < s.len() implies exists|k: int|
                    0 <= k < out@.len() && #[trigger] summarizes(out@[k], s[j], s[j].state) by {
                assert(0 <= pos[j] < s.len());
            }
        }
        out
    }

    /// Reports one instance.
    pub fn query_instance(&self, handle_id: &HandleId) -> (r: Result<InstanceSummary, DomainError>)
        requires
            self.wf(),
        ensures
            match r {
                Ok(s) => has_handle(self.instances(), handle_id@) && summarizes(
                    s,
                    self.instance_of(handle_id@),
                    self.instance_of(handle_id@).state,
                ),
                Err(e) => !has_handle(self.instances(), handle_id@) && self.missing_error(
                    handle_id@,
                    e,
                ),
            },
    {
        match self.find(handle_id) {
            Some(k) => Ok(self.instances[k].to_summary()),
            None => Err(self.missing_handle_error(handle_id)),
        }
    }
}

/// Names of states, in order.
pub open spec fn state_names(states: Seq<InstanceState>) -> Seq<Seq<char>> {
    states.map_values(|st: InstanceState| state_name(st))
}

/// `e` refuses `tool` in `state`, listing the states it accepts.
pub open spec fn state_error(e: DomainError, tool: Seq<char>, state: InstanceState, allowed: Seq<InstanceState>) -> bool {
    &&& e.category == ErrorCategory::InvalidState
    &&& e.code == ErrorCode::StateNotAllowed
    &&& !e.retryable
    &&& e.message@ == "State "@ + state_name(state) + " is not allowed for "@ + tool + "."@
    &&& e.details@ == seq![
        ("current_state"@, DetailView::Text(state_name(state))),
        ("allowed_states"@, DetailView::TextList(state_names(allowed))),
    ]
}

fn state_name_list(states: Vec<InstanceState>) -> (v: Vec<String>)
    ensures
        text_views(v@) == state_names(states@),
{
    let mut v: Vec<String> = Vec::new();
    let mut i: usize = 0;
    while i < states.len()
        invariant
            i <= states@.len(),
            text_views(v@) =~= state_names(states@.take(i as int)),
        decreases states@.len() - i,
    {
        let ghost prev = v@;
        v.push(states[i].name().to_owned());
        proof {
            assert(text_views(v@) =~= text_views(prev).push(state_name(states@[i as int])));
            assert(states@.take(i + 1) =~= states@.take(i as int).push(states@[i as int]));
            assert(state_names(states@.take(i + 1)) =~= state_names(states@.take(i as int)).push(
                state_name(states@[i as int]),
            ));
        }
        i = i + 1;
    }
    assert(states@.take(states@.len() as int) =~= states@);
    v
}

/// The error refusing `tool` in `state`.
pub fn state_not_allowed(tool: &str, state: InstanceState, allowed: Vec<InstanceState>) -> (e: DomainError)
    ensures
        state_error(e, tool@, state, allowed@),
{
    let mut message = crate::util::text::concat("State ", state.name());
    message.append(" is not allowed for ");
    message.append(tool);
    message.append(".");
    let names = state_name_list(allowed);
    let e = DomainError::new(
        ErrorCategory::InvalidState,
        ErrorCode::StateNotAllowed,
        message.as_str(),
        "Call an allowed lifecycle tool first, then retry.",
        false,
    ).with_detail("current_state", DetailValue::Text(state.name().to_owned())).with_detail(
        "allowed_states",
        DetailValue::TextList(names),
    );
    assert(e.details@ =~= seq![
        ("current_state"@, DetailView::Text(state_name(state))),
        ("allowed_states"@, DetailView::TextList(state_names(allowed@))),
    ]);
    e
}

/// The handle a session is bound to, if any.
pub open spec fn binding_of(bs: Seq<(Seq<char>, Seq<char>)>, session: Seq<char>) -> Option<Seq<char>> {
    if exists|k: int| 0 <= k < bs.len() && #[trigger] bs[k].0 == session {
        Some(bs[choose|k: int| 0 <= k < bs.len() && #[trigger] bs[k].0 == session].1)
    } else {
        None
    }
}

/// `bs` after binding `session` to `h`: the entry is replaced in place, or
/// added at the end.
pub open spec fn rebind(bs: Seq<(Seq<char>, Seq<char>)>, session: Seq<char>, h: Seq<char>) -> Seq<
    (Seq<char>, Seq<char>),
> {
    if exists|k: int| 0 <= k < bs.len() && #[trigger] bs[k].0 == session {
        bs.update(choose|k: int| 0 <= k < bs.len() && #[trigger] bs[k].0 == session, (session, h))
    } else {
        bs.push((session, h))
    }
}

/// The error for a session without a default binding.
pub open spec fn binding_missing_error(e: DomainError) -> bool {
    &&& e.category == ErrorCategory::HandleNotFound
    &&& e.code == ErrorCode::SessionBindingMissing
    &&& !e.retryable
    &&& e.details@ == Seq::<(Seq<char>, DetailView)>::empty()
}

/// `e` reports an unavailable session id.
pub open spec fn session_unavailable_error(e: DomainError) -> bool {
    crate::model::error::plain_error(
        e,
        ErrorCategory::InvalidState,
        ErrorCode::SessionIdUnavailable,
        false,
    )
}

impl RuntimeRegistry {
    fn find_binding(&self, session: &str) -> (r: Option<usize>)
        requires
            self.wf(),
        ensures
            match r {
                Some(k) => k < self.bindings().len() && self.bindings()[k as int].0 == session@
                    && (choose|j: int|
                    0 <= j < self.bindings().len() && #[trigger] self.bindings()[j].0 == session@)
                    == k,
                None => !exists|j: int|
                    0 <= j < self.bindings().len() && #[trigger] self.bindings()[j].0 == session@,
            },
    {
        let mut k: usize = 0;
        while k < self.session_bindings.len()
            invariant
                self.wf(),
                k <= self.session_bindings@.len(),
                forall|j: int| 0 <= j < k ==> self.bindings()[j].0 != session@,
            decreases self.session_bindings@.len() - k,
        {
            if crate::util::text::str_eq(self.session_bindings[k].0.as_str(), session) {
                proof {
                    let bs = self.bindings();
                    assert(bs[k as int].0 == session@);
                    let c = choose|j: int| 0 <= j < bs.len() && #[trigger] bs[j].0 == session@;
                    if c != k {
                        if c < k {
                            assert(bs[c].0 != bs[k as int].0);
                        } else {
                            assert(bs[k as int].0 != bs[c].0);
                        }
                    }
                }
                return Some(k);
            }
            assert(self.bindings()[k as int].0 == self.session_bindings@[k as int].0@);
            k = k + 1;
        }
        None
    }

    /// Binds `session_id` to an instance that is not disconnecting; tells
    /// which handle it was bound to before.
    pub fn use_instance(&mut self, session_id: Option<&str>, handle_id: &HandleId) -> (r: Result<
        SessionBindingResult,
        DomainError,
    >)
        requires
            old(self).wf(),
        ensures
            final(self).wf(),
            match r {
                Ok(b) => {
                    &&& session_id is Some
                    &&& has_handle(old(self).instances(), handle_id@)
                    &&& old(self).instance_of(handle_id@).state != InstanceState::Disconnecting
                    &&& crate::model::config::opt_str(session_id) matches Some(sess) && {
                        &&& (match b.previous_handle_id {
                            Some(p) => binding_of(old(self).bindings(), sess) == Some(p@),
                            None => binding_of(old(self).bindings(), sess) is None,
                        })
                        &&& final(self).bindings() == rebind(old(self).bindings(), sess, handle_id@)
                    }
                    &&& final(self).instances() == old(self).instances()
                    &&& final(self).released() == old(self).released()
                    &&& final(self).locks() == old(self).locks()
                    &&& final(self).limits() == old(self).limits()
                    &&& final(self).ids() == old(self).ids()
                    &&& final(self).queued_budget() == old(self).queued_budget()
                    &&& final(self).buffer_budget() == old(self).buffer_budget()
                },
                Err(e) => {
                    &&& *final(self) == *old(self)
                    &&& if session_id is None {
                        session_unavailable_error(e)
                    } else if !has_handle(old(self).instances(), handle_id@) {
                        old(self).missing_error(handle_id@, e)
                    } else {
                        &&& old(self).instance_of(handle_id@).state == InstanceState::Disconnecting
                        &&& state_error(
                            e,
                            "instance_use"@,
                            InstanceState::Disconnecting,
                            seq![
                                InstanceState::Created,
                                InstanceState::Configured,
                                InstanceState::Connected,
                                InstanceState::Disconnected,
                                InstanceState::Error,
                            ],
                        )
                    }
                },
            },
    {
        let session = match session_id {
            Some(s) => s,
            None => return Err(DomainError::session_id_unavailable()),
        };
        let k = match self.find(handle_id) {
            Some(k) => k,
            None => return Err(self.missing_handle_error(handle_id)),
        };
        if self.instances[k].state == InstanceState::Disconnecting {
            return Err(
                state_not_allowed(
                    "instance_use",
                    InstanceState::Disconnecting,
                    vec![
                        InstanceState::Created,
                        InstanceState::Configured,
                        InstanceState::Connected,
                        InstanceState::Disconnected,
                        InstanceState::Error,
                    ],
                ),
            );
        }
        let ghost old_bindings = self.bindings();
        match self.find_binding(session) {
            Some(j) => {
                let (key, previous) = self.session_bindings.remove(j);
                self.session_bindings.insert(j, (key, handle_id.duplicate()));
                proof {
                    let bs = self.bindings();
                    assert(bs =~= old_bindings.update(j as int, (session@, handle_id@)));
                    assert forall|a: int, b: int| 0 <= a < b < bs.len() implies #[trigger] bs[a].0
                        != #[trigger] bs[b].0 by {
                        assert(bs[a].0 == old_bindings[a].0 && bs[b].0 == old_bindings[b].0);
                    }
                }
                Ok(SessionBindingResult { previous_handle_id: Some(previous) })
            },
            None => {
                self.session_bindings.push((session.to_owned(), handle_id.duplicate()));
                proof {
                    let bs = self.bindings();
                    assert(bs =~= old_bindings.push((session@, handle_id@)));
                    assert forall|a: int, b: int| 0 <= a < b < bs.len() implies #[trigger] bs[a].0
                        != #[trigger] bs[b].0 by {
                        if b == bs.len() - 1 {
                            assert(bs[a].0 == old_bindings[a].0);
                        } else {
                            assert(bs[a].0 == old_bindings[a].0 && bs[b].0 == old_bindings[b].0);
                        }
                    }
                }
                Ok(SessionBindingResult { previous_handle_id: None })
            },
        }
    }

    /// The handle a tool acts on: the explicit one, else the session's
    /// binding; either must name a registered instance.
    pub fn resolve_handle(&self, explicit_handle_id: Option<&HandleId>, session_id: Option<&str>) -> (r:
        Result<HandleId, DomainError>)
        requires
            self.wf(),
        ensures
            match explicit_handle_id {
                Some(h) => match r {
                    Ok(x) => x@ == h@ && has_handle(self.instances(), h@),
                    Err(e) => !has_handle(self.instances(), h@) && self.missing_error(h@, e),
                },
                None => match session_id {
                    None => r matches Err(e) && session_unavailable_error(e),
                    Some(sess) => match binding_of(self.bindings(), sess@) {
                        None => r matches Err(e) && binding_missing_error(e),
                        Some(b) => match r {
                            Ok(x) => x@ == b && has_handle(self.instances(), b),
                            Err(e) => !has_handle(self.instances(), b) && self.missing_error(b, e),
                        },
                    },
                },
            },
    {
        match explicit_handle_id {
            Some(h) => {
                return match self.find(h) {
                    Some(_) => Ok(h.duplicate()),
                    None => Err(self.missing_handle_error(h)),
                };
            },
            None => {},
        }
        let session = match session_id {
            Some(s) => s,
            None => return Err(DomainError::session_id_unavailable()),
        };
        let j = match self.find_binding(session) {
            Some(j) => j,
            None => {
                return Err(
                    DomainError::new(
                        ErrorCategory::HandleNotFound,
                        ErrorCode::SessionBindingMissing,
                        "Current session has no default instance binding.",
                        "Pass handle_id explicitly or call instance_use first.",
                        false,
                    ),
                );
            },
        };
        let bound = &self.session_bindings[j].1;
        assert(bound@ == self.bindings()[j as int].1);
        match self.find(bound) {
            Some(_) => Ok(bound.duplicate()),
            None => Err(self.missing_handle_error(bound)),
        }
    }
}

/// `i` with `config` applied: configured, everything else kept.
pub open spec fn with_config(i: RuntimeInstance, config: ConfigSnapshot) -> RuntimeInstance {
    RuntimeInstance { config: Some(config), state: InstanceState::Configured, ..i }
}

/// States in which an instance accepts a configuration.
pub open spec fn configurable(state: InstanceState) -> bool {
    state == InstanceState::Created || state == InstanceState::Configured || state
        == InstanceState::Disconnected
}

/// The outcome of applying `config` to the instance `h`, expected to be of
/// type `t`: unknown handles, a type mismatch and non-configurable states
/// are refused in that order, leaving the registry as it was.
pub open spec fn configure_result(
    old: RuntimeRegistry,
    new: RuntimeRegistry,
    h: Seq<char>,
    t: InstanceType,
    config: ConfigSnapshot,
    r: Result<InstanceSummary, DomainError>,
) -> bool {
    if !has_handle(old.instances(), h) {
        r matches Err(e) && old.missing_error(h, e) && new == old
    } else if old.instance_of(h).instance_type != t {
        r matches Err(e) && e.code == ErrorCode::TypeMismatch && e.category
            == ErrorCategory::InvalidArgument && new == old
    } else if !configurable(old.instance_of(h).state) {
        r matches Err(e) && state_error(
            e,
            "configure"@,
            old.instance_of(h).state,
            seq![InstanceState::Created, InstanceState::Configured, InstanceState::Disconnected],
        ) && new == old
    } else {
        let k = slot_of(old.instances(), h);
        let inst = with_config(old.instances()[k], config);
        &&& r matches Ok(s) && summarizes(s, inst, InstanceState::Configured)
        &&& new.instances() == old.instances().update(k, inst)
        &&& new.same_but_instances(&old)
        &&& new.queued_budget() == old.queued_budget()
        &&& new.buffer_budget() == old.buffer_budget()
    }
}

impl RuntimeRegistry {
    fn configure(&mut self, handle_id: &HandleId, expected_type: InstanceType, config: ConfigSnapshot) -> (r: Result<
        InstanceSummary,
        DomainError,
    >)
        requires
            old(self).wf(),
        ensures
            final(self).wf(),
            configure_result(*old(self), *final(self), handle_id@, expected_type, config, r),
    {
        let k = match self.find(handle_id) {
            Some(k) => k,
            None => return Err(self.missing_handle_error(handle_id)),
        };
        match validate_instance_type(self.instances[k].instance_type, expected_type) {
            Ok(()) => {},
            Err(e) => return Err(e),
        }
        let state = self.instances[k].state;
        if !(state == InstanceState::Created || state == InstanceState::Configured || state
            == InstanceState::Disconnected) {
            return Err(
                state_not_allowed(
                    "configure",
                    state,
                    vec![
                        InstanceState::Created,
                        InstanceState::Configured,
                        InstanceState::Disconnected,
                    ],
                ),
            );
        }
        let ghost old_instances = self.instances@;
        assert(instance_wf(old_instances[k as int]));
        let mut inst = self.instances.remove(k);
        inst.config = Some(config);
        inst.state = InstanceState::Configured;
        let summary = inst.to_summary();
        self.instances.insert(k, inst);
        proof {
            assert(self.instances@ =~= old_instances.update(k as int, inst));
            lemma_replace_instance(old_instances, k as int, inst, self.ids);
            lemma_replace_rx(old_instances, k as int, inst, keep_limit(self.limits));
        }
        Ok(summary)
    }

    /// Applies a serial configuration after checking its timeout.
    pub fn configure_serial(&mut self, handle_id: &HandleId, config: SerialConfig) -> (r: Result<
        InstanceSummary,
        DomainError,
    >)
        requires
            old(self).wf(),
        ensures
            final(self).wf(),
            if crate::model::config::timeout_ok(old(self).limits(), config.timeout_ms) {
                configure_result(
                    *old(self),
                    *final(self),
                    handle_id@,
                    InstanceType::Serial,
                    ConfigSnapshot::Serial(config),
                    r,
                )
            } else {
                r matches Err(e) && crate::model::config::timeout_rejected(
                    old(self).limits(),
                    "timeout_ms"@,
                    config.timeout_ms,
                    e,
                ) && *final(self) == *old(self)
            },
    {
        match self.limits.validate_io_timeout_ms("timeout_ms", config.timeout_ms) {
            Ok(_) => {},
            Err(e) => return Err(e),
        }
        self.configure(handle_id, InstanceType::Serial, ConfigSnapshot::Serial(config))
    }

    /// Applies a TCP configuration after checking its host and timeout.
    pub fn configure_tcp(&mut self, handle_id: &HandleId, config: TcpConfig) -> (r: Result<
        InstanceSummary,
        DomainError,
    >)
        requires
            old(self).wf(),
        ensures
            final(self).wf(),
            if crate::model::config::tcp_outcome(config, old(self).limits(), Ok(())) {
                configure_result(
                    *old(self),
                    *final(self),
                    handle_id@,
                    InstanceType::Tcp,
                    ConfigSnapshot::Tcp(config),
                    r,
                )
            } else {
                r is Err && crate::model::config::tcp_outcome(
                    config,
                    old(self).limits(),
                    Err(r->Err_0),
                ) && *final(self) == *old(self)
            },
    {
        match config.validate_remote(&self.limits) {
            Ok(()) => {},
            Err(e) => return Err(e),
        }
        self.configure(handle_id, InstanceType::Tcp, ConfigSnapshot::Tcp(config))
    }

    /// Applies a UDP configuration after checking its hosts and timeout.
    pub fn configure_udp(&mut self, handle_id: &HandleId, config: UdpConfig) -> (r: Result<
        InstanceSummary,
        DomainError,
    >)
        requires
            old(self).wf(),
        ensures
            final(self).wf(),
            if crate::model::config::udp_outcome(config, old(self).limits(), Ok(())) {
                configure_result(
                    *old(self),
                    *final(self),
                    handle_id@,
                    InstanceType::Udp,
                    ConfigSnapshot::Udp(config),
                    r,
                )
            } else {
                r is Err && crate::model::config::udp_outcome(
                    config,
                    old(self).limits(),
                    Err(r->Err_0),
                ) && *final(self) == *old(self)
            },
    {
        match config.validate_remote(&self.limits) {
            Ok(()) => {},
            Err(e) => return Err(e),
        }
        self.configure(handle_id, InstanceType::Udp, ConfigSnapshot::Udp(config))
    }

    /// Checks a VISA configuration against the limits.
    pub fn validate_visa_config(&self, config: &VisaConfig) -> (r: Result<(), DomainError>)
        ensures
            crate::model::config::visa_outcome(*config, self.limits(), r),
    {
        config.validate(&self.limits)
    }

    /// Applies a VISA configuration after checking its timeouts and host.
    pub fn configure_visa(&mut self, handle_id: &HandleId, config: VisaConfig) -> (r: Result<
        InstanceSummary,
        DomainError,
    >)
        requires
            old(self).wf(),
        ensures
            final(self).wf(),
            if crate::model::config::visa_outcome(config, old(self).limits(), Ok(())) {
                configure_result(
                    *old(self),
                    *final(self),
                    handle_id@,
                    InstanceType::Visa,
                    ConfigSnapshot::Visa(config),
                    r,
                )
            } else {
                r is Err && crate::model::config::visa_outcome(
                    config,
                    old(self).limits(),
                    Err(r->Err_0),
                ) && *final(self) == *old(self)
            },
    {
        match self.validate_visa_config(&config) {
            Ok(()) => {},
            Err(e) => return Err(e),
        }
        self.configure(handle_id, InstanceType::Visa, ConfigSnapshot::Visa(config))
    }
}

/// The entries of `s` whose value satisfies `keep`, in order.
pub open spec fn filter_pairs<V>(s: Seq<(Seq<char>, V)>, keep: spec_fn(V) -> bool) -> Seq<
    (Seq<char>, V),
>
    decreases s.len(),
{
    if s.len() == 0 {
        Seq::empty()
    } else {
        let rest = filter_pairs(s.drop_last(), keep);
        if keep(s.last().1) {
            rest.push(s.last())
        } else {
            rest
        }
    }
}

/// Every entry kept by a filter comes from the input sequence.
pub proof fn lemma_filter_pairs_from<V>(s: Seq<(Seq<char>, V)>, keep: spec_fn(V) -> bool)
    ensures
        forall|k: int|
            0 <= k < filter_pairs(s, keep).len() ==> exists|i: int|
                0 <= i < s.len() && s[i] == #[trigger] filter_pairs(s, keep)[k],
        filter_pairs(s, keep).len() <= s.len(),
    decreases s.len(),
{
    if s.len() > 0 {
        let d = s.drop_last();
        lemma_filter_pairs_from(d, keep);
        let f = filter_pairs(s, keep);
        assert forall|k: int| 0 <= k < f.len() implies exists|i: int|
            0 <= i < s.len() && s[i] == #[trigger] f[k] by {
            if k < filter_pairs(d, keep).len() {
                let i = choose|i: int| 0 <= i < d.len() && d[i] == #[trigger] filter_pairs(d, keep)[k];
                assert(s[i] == d[i]);
            } else {
                assert(f[k] == s.last());
                assert(s[s.len() - 1] == s.last());
            }
        }
    }
}

/// Filtering keeps keys distinct.
pub proof fn lemma_filter_pairs_distinct<V>(s: Seq<(Seq<char>, V)>, keep: spec_fn(V) -> bool)
    requires
        distinct_keys(s),
    ensures
        distinct_keys(filter_pairs(s, keep)),
    decreases s.len(),
{
    if s.len() > 0 {
        let d = s.drop_last();
        assert(distinct_keys(d)) by {
            assert forall|a: int, b: int| 0 <= a < b < d.len() implies #[trigger] d[a].0
                != #[trigger] d[b].0 by {
                assert(d[a] == s[a] && d[b] == s[b]);
            }
        }
        lemma_filter_pairs_distinct(d, keep);
        lemma_filter_pairs_from(d, keep);
        let f = filter_pairs(s, keep);
        let fd = filter_pairs(d, keep);
        if keep(s.last().1) {
            assert forall|a: int, b: int| 0 <= a < b < f.len() implies #[trigger] f[a].0
                != #[trigger] f[b].0 by {
                if b == f.len() - 1 {
                    let i = choose|i: int| 0 <= i < d.len() && d[i] == #[trigger] fd[a];
                    assert(s[i] == d[i]);
                    assert(s[i].0 != s[s.len() - 1].0);
                } else {
                    assert(f[a] == fd[a] && f[b] == fd[b]);
                }
            }
        }
    }
}

/// The lock held on `key`, if any.
pub open spec fn lock_of(ls: Seq<(Seq<char>, ResourceLockEntry)>, key: Seq<char>) -> Option<
    ResourceLockEntry,
> {
    if exists|k: int| 0 <= k < ls.len() && #[trigger] ls[k].0 == key {
        Some(ls[choose|k: int| 0 <= k < ls.len() && #[trigger] ls[k].0 == key].1)
    } else {
        None
    }
}

/// `e` once its resource starts closing.
pub open spec fn closing(e: ResourceLockEntry) -> ResourceLockEntry {
    ResourceLockEntry {
        state: ResourceLockState::Closing,
        generation: (if e.generation < u64::MAX { e.generation + 1 } else { e.generation as int }) as u64,
        ..e
    }
}

/// The locks after `h` is force-released: its locks start closing.
pub open spec fn close_owned(ls: Seq<(Seq<char>, ResourceLockEntry)>, h: Seq<char>) -> Seq<
    (Seq<char>, ResourceLockEntry),
> {
    ls.map_values(
        |p: (Seq<char>, ResourceLockEntry)|
            if p.1.owner_handle_id@ == h {
                (p.0, closing(p.1))
            } else {
                p
            },
    )
}

/// The error for a lock that does not exist.
pub open spec fn no_lock_error(e: DomainError) -> bool {
    &&& e.category == ErrorCategory::HandleNotFound
    &&& e.code == ErrorCode::HandleNotFound
    &&& !e.retryable
    &&& e.details@ == Seq::<(Seq<char>, DetailView)>::empty()
}

impl RuntimeRegistry {
    fn find_lock(&self, key: &ResourceKey) -> (r: Option<usize>)
        requires
            self.wf(),
        ensures
            match r {
                Some(k) => k < self.locks().len() && self.locks()[k as int].0 == key@
                    && lock_of(self.locks(), key@) == Some(self.locks()[k as int].1)
                    && (choose|j: int| 0 <= j < self.locks().len() && #[trigger] self.locks()[j].0 == key@) == k,
                None => lock_of(self.locks(), key@) is None,
            },
    {
        let mut k: usize = 0;
        while k < self.resource_locks.len()
            invariant
                self.wf(),
                k <= self.resource_locks@.len(),
                forall|j: int| 0 <= j < k ==> self.locks()[j].0 != key@,
            decreases self.resource_locks@.len() - k,
        {
            if self.resource_locks[k].0.same_as(key) {
                proof {
                    let ls = self.locks();
                    assert(ls[k as int].0 == key@);
                    let c = choose|j: int| 0 <= j < ls.len() && #[trigger] ls[j].0 == key@;
                    if c != k {
                        if c < k {
                            assert(ls[c].0 != ls[k as int].0);
                        } else {
                            assert(ls[k as int].0 != ls[c].0);
                        }
                    }
                }
                return Some(k);
            }
            assert(self.locks()[k as int].0 == self.resource_locks@[k as int].0@);
            k = k + 1;
        }
        None
    }

    /// Takes the lock on `key` for `owner_handle_id` unless someone holds it.
    pub fn acquire_resource_lock(&mut self, key: ResourceKey, owner_handle_id: &HandleId) -> (r: Result<
        (),
        DomainError,
    >)
        requires
            old(self).wf(),
        ensures
            final(self).wf(),
            match lock_of(old(self).locks(), key@) {
                Some(entry) => r matches Err(e) && lock_error(
                    e,
                    key@,
                    entry.owner_handle_id@,
                    entry.state,
                ) && *final(self) == *old(self),
                None => {
                    &&& r is Ok
                    &&& final(self).locks().len() == old(self).locks().len() + 1
                    &&& final(self).locks().drop_last() == old(self).locks()
                    &&& final(self).locks().last().0 == key@
                    &&& final(self).locks().last().1.owner_handle_id@ == owner_handle_id@
                    &&& final(self).locks().last().1.state == ResourceLockState::Held
                    &&& final(self).instances() == old(self).instances()
                    &&& final(self).released() == old(self).released()
                    &&& final(self).bindings() == old(self).bindings()
                    &&& final(self).limits() == old(self).limits()
                    &&& final(self).ids() == old(self).ids()
                    &&& final(self).queued_budget() == old(self).queued_budget()
                    &&& final(self).buffer_budget() == old(self).buffer_budget()
                },
            },
    {
        match self.find_lock(&key) {
            Some(k) => {
                return Err(resource_lock_error(&key, &self.resource_locks[k].1));
            },
            None => {},
        }
        let ghost old_locks = self.locks();
        self.resource_locks.push((key, ResourceLockEntry::held(owner_handle_id.duplicate())));
        proof {
            let ls = self.locks();
            assert(ls.drop_last() =~= old_locks);
            assert forall|a: int, b: int| 0 <= a < b < ls.len() implies #[trigger] ls[a].0
                != #[trigger] ls[b].0 by {
                if b == ls.len() - 1 {
                    assert(ls[a] == old_locks[a]);
                    if ls[a].0 == ls[b].0 {
                        assert(exists|k: int| 0 <= k < old_locks.len() && #[trigger] old_locks[k].0 == key@);
                    }
                } else {
                    assert(ls[a] == old_locks[a] && ls[b] == old_locks[b]);
                }
            }
        }
        Ok(())
    }

    /// The state of the lock on `key`, if any.
    pub fn resource_lock_state(&self, key: &ResourceKey) -> (r: Option<ResourceLockState>)
        requires
            self.wf(),
        ensures
            r == (match lock_of(self.locks(), key@) {
                Some(e) => Some(e.state),
                None => None,
            }),
    {
        match self.find_lock(key) {
            Some(k) => Some(self.resource_locks[k].1.state),
            None => None,
        }
    }

    /// Ends the closing of `key`: a closing lock is dropped, no lock is fine,
    /// and a held or stale lock is refused.
    pub fn complete_mock_background_close(&mut self, key: &ResourceKey) -> (r: Result<(), DomainError>)
        requires
            old(self).wf(),
        ensures
            final(self).wf(),
            match lock_of(old(self).locks(), key@) {
                None => r is Ok && *final(self) == *old(self),
                Some(entry) => if entry.state == ResourceLockState::Closing {
                    &&& r is Ok
                    &&& final(self).locks() == old(self).locks().remove(
                        choose|j: int|
                            0 <= j < old(self).locks().len() && #[trigger] old(self).locks()[j].0
                                == key@,
                    )
                    &&& lock_of(final(self).locks(), key@) is None
                    &&& final(self).instances() == old(self).instances()
                    &&& final(self).released() == old(self).released()
                    &&& final(self).bindings() == old(self).bindings()
                    &&& final(self).limits() == old(self).limits()
                    &&& final(self).ids() == old(self).ids()
                    &&& final(self).queued_budget() == old(self).queued_budget()
                    &&& final(self).buffer_budget() == old(self).buffer_budget()
                } else {
                    r matches Err(e) && lock_error(e, key@, entry.owner_handle_id@, entry.state)
                        && *final(self) == *old(self)
                },
            },
    {
        match self.find_lock(key) {
            None => Ok(()),
            Some(k) => {
                if self.resource_locks[k].1.state == ResourceLockState::Closing {
                    let ghost old_locks = self.locks();
                    self.resource_locks.remove(k);
                    proof {
                        let ls = self.locks();
                        assert(ls =~= old_locks.remove(k as int));
                        assert forall|a: int, b: int| 0 <= a < b < ls.len() implies #[trigger] ls[a].0
                            != #[trigger] ls[b].0 by {
                            let a2 = if a < k { a } else { a + 1 };
                            let b2 = if b < k { b } else { b + 1 };
                            assert(ls[a] == old_locks[a2] && ls[b] == old_locks[b2]);
                        }
                        if exists|j: int| 0 <= j < ls.len() && #[trigger] ls[j].0 == key@ {
                            let j = choose|j: int| 0 <= j < ls.len() && #[trigger] ls[j].0 == key@;
                            let j2 = if j < k { j } else { j + 1 };
                            assert(ls[j] == old_locks[j2]);
                            assert(old_locks[j2].0 == old_locks[k as int].0);
                        }
                    }
                    Ok(())
                } else {
                    Err(resource_lock_error(key, &self.resource_locks[k].1))
                }
            },
        }
    }

    /// Moves the lock on `key`, owned by `owner_handle_id`, to closing.
    pub fn move_resource_lock_to_closing_for_tests(&mut self, key: &ResourceKey, owner_handle_id: &HandleId) -> (r:
        Result<(), DomainError>)
        requires
            old(self).wf(),
        ensures
            final(self).wf(),
            match lock_of(old(self).locks(), key@) {
                None => r matches Err(e) && no_lock_error(e) && *final(self) == *old(self),
                Some(entry) => if entry.owner_handle_id@ != owner_handle_id@ {
                    r matches Err(e) && lock_error(e, key@, entry.owner_handle_id@, entry.state)
                        && *final(self) == *old(self)
                } else {
                    &&& r is Ok
                    &&& final(self).locks() == old(self).locks().update(
                        choose|j: int|
                            0 <= j < old(self).locks().len() && #[trigger] old(self).locks()[j].0
                                == key@,
                        (key@, closing(entry)),
                    )
                    &&& final(self).instances() == old(self).instances()
                    &&& final(self).bindings() == old(self).bindings()
                    &&& final(self).released() == old(self).released()
                    &&& final(self).queued_budget() == old(self).queued_budget()
                    &&& final(self).buffer_budget() == old(self).buffer_budget()
                },
            },
    {
        let k = match self.find_lock(key) {
            Some(k) => k,
            None => {
                return Err(
                    DomainError::new(
                        ErrorCategory::HandleNotFound,
                        ErrorCode::HandleNotFound,
                        "Resource lock does not exist.",
                        "Acquire the resource lock before moving it to closing.",
                        false,
                    ),
                );
            },
        };
        if !self.resource_locks[k].1.owner_handle_id.same_as(owner_handle_id) {
            return Err(resource_lock_error(key, &self.resource_locks[k].1));
        }
        let ghost old_locks = self.locks();
        let (lk, mut entry) = self.resource_locks.remove(k);
        entry.state = ResourceLockState::Closing;
        entry.generation = entry.generation.saturating_add(1);
        self.resource_locks.insert(k, (lk, entry));
        proof {
            let ls = self.locks();
            assert(ls =~= old_locks.update(k as int, (key@, closing(old_locks[k as int].1))));
            assert forall|a: int, b: int| 0 <= a < b < ls.len() implies #[trigger] ls[a].0
                != #[trigger] ls[b].0 by {
                assert(ls[a].0 == old_locks[a].0 && ls[b].0 == old_locks[b].0);
            }
        }
        Ok(())
    }

    /// Marks the lock on `key` stale.
    pub fn mark_resource_lock_stale_for_tests(&mut self, key: &ResourceKey) -> (r: Result<(), DomainError>)
        requires
            old(self).wf(),
        ensures
            final(self).wf(),
            match lock_of(old(self).locks(), key@) {
                None => r matches Err(e) && no_lock_error(e) && *final(self) == *old(self),
                Some(entry) => {
                    &&& r is Ok
                    &&& final(self).locks() == old(self).locks().update(
                        choose|j: int|
                            0 <= j < old(self).locks().len() && #[trigger] old(self).locks()[j].0
                                == key@,
                        (
                            key@,
                            ResourceLockEntry {
                                state: ResourceLockState::Stale,
                                stale_close: true,
                                ..entry
                            },
                        ),
                    )
                    &&& final(self).instances() == old(self).instances()
                    &&& final(self).bindings() == old(self).bindings()
                    &&& final(self).released() == old(self).released()
                    &&& final(self).queued_budget() == old(self).queued_budget()
                    &&& final(self).buffer_budget() == old(self).buffer_budget()
                },
            },
    {
        let k = match self.find_lock(key) {
            Some(k) => k,
            None => {
                return Err(
                    DomainError::new(
                        ErrorCategory::HandleNotFound,
                        ErrorCode::HandleNotFound,
                        "Resource lock does not exist.",
                        "Acquire the resource lock before marking it stale.",
                        false,
                    ),
                );
            },
        };
        let ghost old_locks = self.locks();
        let (lk, mut entry) = self.resource_locks.remove(k);
        entry.state = ResourceLockState::Stale;
        entry.stale_close = true;
        self.resource_locks.insert(k, (lk, entry));
        proof {
            let ls = self.locks();
            assert(ls =~= old_locks.update(
                k as int,
                (
                    key@,
                    ResourceLockEntry {
                        state: ResourceLockState::Stale,
                        stale_close: true,
                        ..old_locks[k as int].1
                    },
                ),
            ));
            assert forall|a: int, b: int| 0 <= a < b < ls.len() implies #[trigger] ls[a].0
                != #[trigger] ls[b].0 by {
                assert(ls[a].0 == old_locks[a].0 && ls[b].0 == old_locks[b].0);
            }
        }
        Ok(())
    }

    /// Ends the closing of `key`.
    pub fn complete_resource_close_for_tests(&mut self, key: &ResourceKey) -> (r: Result<(), DomainError>)
        requires
            old(self).wf(),
        ensures
            final(self).wf(),
            match lock_of(old(self).locks(), key@) {
                None => r is Ok,
                Some(entry) => (r is Ok) == (entry.state == ResourceLockState::Closing),
            },
            lock_of(old(self).locks(), key@) matches Some(entry) && entry.state
                == ResourceLockState::Closing ==> lock_of(final(self).locks(), key@) is None,
    {
        self.complete_mock_background_close(key)
    }
}

/// `a - b`, floored at zero.
pub open spec fn sat_sub(a: int, b: int) -> int {
    if a > b {
        a - b
    } else {
        0
    }
}

/// Releasing what a part held keeps a budget within what remains held.
proof fn lemma_release_within(budget: int, total: int, part: int, released: int)
    requires
        0 <= budget <= total,
        budget <= usize::MAX,
        0 <= part <= total,
        released == crate::runtime::subscriptions::sat_usize(part),
    ensures
        sat_sub(budget, released) <= total - part,
{
}

fn tx_queue_bytes(q: &VecDeque<SendItem>) -> (n: usize)
    ensures
        n == crate::runtime::subscriptions::sat_usize(tx_total(q@)),
{
    let mut n: usize = 0;
    let mut i: usize = 0;
    while i < q.len()
        invariant
            i <= q@.len(),
            n == crate::runtime::subscriptions::sat_usize(tx_total(q@.take(i as int))),
        decreases q@.len() - i,
    {
        proof {
            crate::util::sums::lemma_sum_take_next(q@, i as int, |it: SendItem| it.bytes@.len() as int);
            lemma_sum_nonneg(q@.take(i as int), |it: SendItem| it.bytes@.len() as int);
        }
        n = n.saturating_add(q[i].bytes.len());
        i = i + 1;
    }
    assert(q@.take(q@.len() as int) =~= q@);
    n
}

fn subscribers_bytes(subs: &Vec<(String, Subscriber)>) -> (n: usize)
    ensures
        n == crate::runtime::subscriptions::sat_usize(subs_total(subs@)),
{
    let mut n: usize = 0;
    let mut i: usize = 0;
    while i < subs.len()
        invariant
            i <= subs@.len(),
            n == crate::runtime::subscriptions::sat_usize(subs_total(subs@.take(i as int))),
        decreases subs@.len() - i,
    {
        proof {
            crate::util::sums::lemma_sum_take_next(
                subs@,
                i as int,
                |p: (String, Subscriber)| payload_total(p.1.queue@),
            );
            lemma_all_payload_nonneg(subs@.take(i as int));
            crate::runtime::subscriptions::lemma_payload_total_nonneg(subs@[i as int].1.queue@);
        }
        n = n.saturating_add(subs[i].1.queued_bytes());
        i = i + 1;
    }
    assert(subs@.take(subs@.len() as int) =~= subs@);
    n
}

proof fn lemma_all_payload_nonneg(s: Seq<(String, Subscriber)>)
    ensures
        subs_total(s) >= 0,
{
    assert forall|i: int| 0 <= i < s.len() implies (|p: (String, Subscriber)| payload_total(p.1.queue@))(#[trigger] s[i]) >= 0 by {
        crate::runtime::subscriptions::lemma_payload_total_nonneg(s[i].1.queue@);
    }
    lemma_sum_nonneg(s, |p: (String, Subscriber)| payload_total(p.1.queue@));
}

proof fn lemma_queued_nonneg(i: RuntimeInstance)
    ensures
        queued_of(i) >= 0,
        tx_total(i.tx_queue@) >= 0,
        subs_total(i.subscribers@) >= 0,
{
    lemma_sum_nonneg(i.tx_queue@, |it: SendItem| it.bytes@.len() as int);
    lemma_all_payload_nonneg(i.subscribers@);
}

proof fn lemma_totals_nonneg(s: Seq<RuntimeInstance>)
    ensures
        total_queued(s) >= 0,
        total_rx(s) >= 0,
{
    assert forall|k: int| 0 <= k < s.len() implies (|i: RuntimeInstance| queued_of(i))(#[trigger] s[k]) >= 0 by {
        lemma_queued_nonneg(s[k]);
    }
    lemma_sum_nonneg(s, |i: RuntimeInstance| queued_of(i));
    lemma_sum_nonneg(s, |i: RuntimeInstance| rx_of(i));
}

/// Removing an instance keeps the instance invariants, and takes what it
/// held out of the totals.
proof fn lemma_remove_instance(s: Seq<RuntimeInstance>, k: int, ids: IdGenerator)
    requires
        0 <= k < s.len(),
        distinct_handles(s),
        all_issued(ids, s),
        all_instances_wf(s),
    ensures
        distinct_handles(s.remove(k)),
        all_issued(ids, s.remove(k)),
        all_instances_wf(s.remove(k)),
        total_queued(s.remove(k)) == total_queued(s) - queued_of(s[k]),
        total_rx(s.remove(k)) == total_rx(s) - rx_of(s[k]),
        total_queued(s.remove(k)) >= 0,
        total_rx(s.remove(k)) >= 0,
        !has_handle(s.remove(k), s[k].handle_id@),
{
    let t = s.remove(k);
    assert forall|a: int, b: int| 0 <= a < b < t.len() implies #[trigger] t[a].handle_id@
        != #[trigger] t[b].handle_id@ by {
        let a2 = if a < k { a } else { a + 1 };
        let b2 = if b < k { b } else { b + 1 };
        assert(t[a] == s[a2] && t[b] == s[b2]);
    }
    assert forall|a: int| 0 <= a < t.len() implies #[trigger] handle_issued(ids, t[a]) by {
        let a2 = if a < k { a } else { a + 1 };
        assert(t[a] == s[a2]);
        assert(handle_issued(ids, s[a2]));
    }
    assert forall|a: int| 0 <= a < t.len() implies #[trigger] instance_wf(t[a]) by {
        let a2 = if a < k { a } else { a + 1 };
        assert(t[a] == s[a2]);
        assert(instance_wf(s[a2]));
    }
    if has_handle(t, s[k].handle_id@) {
        let j = choose|j: int| 0 <= j < t.len() && #[trigger] t[j].handle_id@ == s[k].handle_id@;
        let j2 = if j < k { j } else { j + 1 };
        assert(t[j] == s[j2]);
    }
    lemma_sum_remove(s, k, |i: RuntimeInstance| queued_of(i));
    lemma_sum_remove(s, k, |i: RuntimeInstance| rx_of(i));
    lemma_totals_nonneg(t);
}

/// The key a mock connection locks: `None` without a configuration; a TCP
/// client locks nothing.
pub open spec fn mock_key(config: Option<ConfigSnapshot>) -> Option<Option<Seq<char>>> {
    match config {
        None => None,
        Some(ConfigSnapshot::Serial(c)) => Some(Some(serial_key(c.port@))),
        Some(ConfigSnapshot::Tcp(c)) => match c.mode {
            TcpMode::Client => Some(None),
            TcpMode::Listen => Some(Some(tcp_listen_key(c.host@, c.port as nat))),
        },
        Some(ConfigSnapshot::Udp(c)) => Some(Some(udp_bind_key(c.bind_host@, c.bind_port as nat))),
        Some(ConfigSnapshot::Visa(c)) => Some(Some(visa_key(c.resource_address@))),
    }
}

fn mock_resource_key(config: &Option<ConfigSnapshot>) -> (r: Option<Option<ResourceKey>>)
    ensures
        match r {
            None => mock_key(*config) is None,
            Some(None) => mock_key(*config) == Some(None::<Seq<char>>),
            Some(Some(k)) => mock_key(*config) == Some(Some(k@)),
        },
{
    match config {
        None => None,
        Some(ConfigSnapshot::Serial(c)) => Some(Some(ResourceKey::serial(c.port.as_str()))),
        Some(ConfigSnapshot::Tcp(c)) => match c.mode {
            TcpMode::Client => Some(None),
            TcpMode::Listen => Some(Some(ResourceKey::tcp_listen(c.host.as_str(), c.port))),
        },
        Some(ConfigSnapshot::Udp(c)) => Some(
            Some(ResourceKey::udp_bind(c.bind_host.as_str(), c.bind_port)),
        ),
        Some(ConfigSnapshot::Visa(c)) => Some(Some(ResourceKey::visa(c.resource_address.as_str()))),
    }
}

/// The locks without those `h` owns.
pub open spec fn without_owned(ls: Seq<(Seq<char>, ResourceLockEntry)>, h: Seq<char>) -> Seq<
    (Seq<char>, ResourceLockEntry),
> {
    filter_pairs(ls, |e: ResourceLockEntry| e.owner_handle_id@ != h)
}

/// The bindings without those to `h`.
pub open spec fn without_bound(bs: Seq<(Seq<char>, Seq<char>)>, h: Seq<char>) -> Seq<
    (Seq<char>, Seq<char>),
> {
    filter_pairs(bs, |b: Seq<char>| b != h)
}

proof fn lemma_filter_pairs_next<V>(s: Seq<(Seq<char>, V)>, i: int, keep: spec_fn(V) -> bool)
    requires
        0 <= i < s.len(),
    ensures
        filter_pairs(s.take(i + 1), keep) == (if keep(s[i].1) {
            filter_pairs(s.take(i), keep).push(s[i])
        } else {
            filter_pairs(s.take(i), keep)
        }),
{
    assert(s.take(i + 1).drop_last() =~= s.take(i));
}

impl RuntimeRegistry {
    fn drop_owned_locks(&mut self, h: &HandleId)
        requires
            old(self).wf(),
        ensures
            final(self).locks() == without_owned(old(self).locks(), h@),
            final(self).instances() == old(self).instances(),
            final(self).released() == old(self).released(),
            final(self).bindings() == old(self).bindings(),
            final(self).limits() == old(self).limits(),
            final(self).ids() == old(self).ids(),
            final(self).queued_budget() == old(self).queued_budget(),
            final(self).buffer_budget() == old(self).buffer_budget(),
            final(self).global_window() == old(self).global_window(),
            final(self).wf(),
    {
        let ghost old_view = self.locks();
        let mut old_locks: Vec<(ResourceKey, ResourceLockEntry)> = Vec::new();
        std::mem::swap(&mut self.resource_locks, &mut old_locks);
        let ghost keep = |e: ResourceLockEntry| e.owner_handle_id@ != h@;
        let mut i: usize = 0;
        while i < old_locks.len()
            invariant
                i <= old_locks@.len(),
                old_view == old_locks@.map_values(
                    |l: (ResourceKey, ResourceLockEntry)| (l.0@, l.1),
                ),
                self.locks() == filter_pairs(old_view.take(i as int), keep),
                keep == (|e: ResourceLockEntry| e.owner_handle_id@ != h@),
                self.instances() == old(self).instances(),
                self.released() == old(self).released(),
                self.limits() == old(self).limits(),
                self.ids() == old(self).ids(),
                self.queued_budget() == old(self).queued_budget(),
                self.buffer_budget() == old(self).buffer_budget(),
                self.global_window() == old(self).global_window(),
                self.bindings() == old(self).bindings(),
            decreases old_locks@.len() - i,
        {
            proof {
                lemma_filter_pairs_next(old_view, i as int, keep);
            }
            let ghost prev = self.locks();
            if !old_locks[i].1.owner_handle_id.same_as(h) {
                self.resource_locks.push((old_locks[i].0.duplicate(), old_locks[i].1.duplicate()));
                assert(self.locks() =~= prev.push(old_view[i as int]));
            }
            i = i + 1;
        }
        proof {
            assert(old_view.take(old_view.len() as int) =~= old_view);
            lemma_filter_pairs_distinct(old_view, keep);
        }
    }

    fn unbind_handle(&mut self, h: &HandleId)
        requires
            old(self).wf(),
        ensures
            final(self).bindings() == without_bound(old(self).bindings(), h@),
            final(self).instances() == old(self).instances(),
            final(self).released() == old(self).released(),
            final(self).locks() == old(self).locks(),
            final(self).limits() == old(self).limits(),
            final(self).ids() == old(self).ids(),
            final(self).queued_budget() == old(self).queued_budget(),
            final(self).buffer_budget() == old(self).buffer_budget(),
            final(self).global_window() == old(self).global_window(),
            final(self).wf(),
    {
        let ghost old_view = self.bindings();
        let mut old_bindings: Vec<(String, HandleId)> = Vec::new();
        std::mem::swap(&mut self.session_bindings, &mut old_bindings);
        let ghost keep = |b: Seq<char>| b != h@;
        let mut i: usize = 0;
        while i < old_bindings.len()
            invariant
                i <= old_bindings@.len(),
                old_view == old_bindings@.map_values(|b: (String, HandleId)| (b.0@, b.1@)),
                self.bindings() == filter_pairs(old_view.take(i as int), keep),
                keep == (|b: Seq<char>| b != h@),
                self.instances() == old(self).instances(),
                self.released() == old(self).released(),
                self.limits() == old(self).limits(),
                self.ids() == old(self).ids(),
                self.queued_budget() == old(self).queued_budget(),
                self.buffer_budget() == old(self).buffer_budget(),
                self.global_window() == old(self).global_window(),
                self.locks() == old(self).locks(),
            decreases old_bindings@.len() - i,
        {
            proof {
                lemma_filter_pairs_next(old_view, i as int, keep);
            }
            let ghost prev = self.bindings();
            if !old_bindings[i].1.same_as(h) {
                self.session_bindings.push((old_bindings[i].0.clone(), old_bindings[i].1.duplicate()));
                assert(self.bindings() =~= prev.push(old_view[i as int]));
            }
            i = i + 1;
        }
        proof {
            assert(old_view.take(old_view.len() as int) =~= old_view);
            lemma_filter_pairs_distinct(old_view, keep);
        }
    }

    fn close_owned_locks(&mut self, h: &HandleId)
        requires
            old(self).wf(),
        ensures
            final(self).locks() == close_owned(old(self).locks(), h@),
            final(self).instances() == old(self).instances(),
            final(self).released() == old(self).released(),
            final(self).bindings() == old(self).bindings(),
            final(self).limits() == old(self).limits(),
            final(self).ids() == old(self).ids(),
            final(self).queued_budget() == old(self).queued_budget(),
            final(self).buffer_budget() == old(self).buffer_budget(),
            final(self).global_window() == old(self).global_window(),
            final(self).wf(),
    {
        let ghost old_view = self.locks();
        let mut i: usize = 0;
        while i < self.resource_locks.len()
            invariant
                i <= self.resource_locks@.len(),
                self.locks().len() == old_view.len(),
                forall|k: int| 0 <= k < i ==> #[trigger] self.locks()[k] == close_owned(old_view, h@)[k],
                forall|k: int| i <= k < old_view.len() ==> #[trigger] self.locks()[k] == old_view[k],
                self.instances() == old(self).instances(),
                self.released() == old(self).released(),
                self.bindings() == old(self).bindings(),
                self.limits() == old(self).limits(),
                self.ids() == old(self).ids(),
                self.queued_budget() == old(self).queued_budget(),
                self.buffer_budget() == old(self).buffer_budget(),
                self.global_window() == old(self).global_window(),
                old_view == old(self).locks(),
            decreases self.resource_locks@.len() - i,
        {
            if self.resource_locks[i].1.owner_handle_id.same_as(h) {
                let ghost before = self.locks();
                let (key, mut entry) = self.resource_locks.remove(i);
                let ghost e0 = entry;
                entry.state = ResourceLockState::Closing;
                entry.generation = entry.generation.saturating_add(1);
                self.resource_locks.insert(i, (key, entry));
                proof {
                    assert(before[i as int] == old_view[i as int]);
                    assert(e0 == old_view[i as int].1);
                    assert(entry == closing(e0));
                    assert(self.locks() =~= before.update(
                        i as int,
                        (old_view[i as int].0, closing(old_view[i as int].1)),
                    ));
                }
            }
            i = i + 1;
        }
        proof {
            assert(self.locks() =~= close_owned(old_view, h@));
            let ls = self.locks();
            assert forall|a: int, b: int| 0 <= a < b < ls.len() implies #[trigger] ls[a].0
                != #[trigger] ls[b].0 by {
                assert(ls[a].0 == old_view[a].0 && ls[b].0 == old_view[b].0);
            }
        }
    }
}

/// The outcome of releasing `h`: a connected instance needs `force`, a
/// disconnecting one too; otherwise the instance is removed, its handle is
/// remembered as released, its session bindings are dropped, its locks are
/// dropped (or, when forced, left closing), and the bytes it held are
/// returned to the budgets.
pub open spec fn release_result(
    old: RuntimeRegistry,
    new: RuntimeRegistry,
    h: Seq<char>,
    force: bool,
    r: Result<InstanceSummary, DomainError>,
) -> bool {
    if !has_handle(old.instances(), h) {
        r matches Err(e) && old.missing_error(h, e) && new == old
    } else {
        let k = slot_of(old.instances(), h);
        let inst = old.instances()[k];
        if inst.state == InstanceState::Connected && !force {
            &&& r matches Err(e) && e.category == ErrorCategory::InvalidState && e.code
                == ErrorCode::ConnectedReleaseRequiresForce && !e.retryable && e.details@ == seq![
                ("current_state"@, DetailView::Text("Connected"@)),
                (
                    "allowed_states"@,
                    DetailView::TextList(
                        state_names(
                            seq![
                                InstanceState::Created,
                                InstanceState::Configured,
                                InstanceState::Disconnected,
                                InstanceState::Error,
                            ],
                        ),
                    ),
                ),
            ]
            &&& new == old
        } else if inst.state == InstanceState::Disconnecting && !force {
            &&& r matches Err(e) && state_error(
                e,
                "instance_release"@,
                InstanceState::Disconnecting,
                seq![
                    InstanceState::Created,
                    InstanceState::Configured,
                    InstanceState::Disconnected,
                    InstanceState::Error,
                ],
            )
            &&& new == old
        } else {
            &&& r matches Ok(s) && summarizes(s, inst, InstanceState::Released)
            &&& new.instances() == old.instances().remove(k)
            &&& new.released() == (if old.released().contains(h) {
                old.released()
            } else {
                old.released().push(h)
            })
            &&& new.bindings() == without_bound(old.bindings(), h)
            &&& new.locks() == (if force {
                close_owned(old.locks(), h)
            } else {
                without_owned(old.locks(), h)
            })
            &&& new.queued_budget() == sat_sub(
                old.queued_budget(),
                crate::runtime::subscriptions::sat_usize(queued_of(inst)),
            )
            &&& new.buffer_budget() == sat_sub(old.buffer_budget(), rx_of(inst))
            &&& new.limits() == old.limits()
            &&& new.ids() == old.ids()
        }
    }
}

/// `i` after its mock connection opens.
pub open spec fn connected(i: RuntimeInstance) -> RuntimeInstance {
    RuntimeInstance {
        state: InstanceState::Connected,
        task_group: Some(
            crate::runtime::tasks::TaskGroup::spec_running(),
        ),
        ..i
    }
}

impl RuntimeRegistry {
    fn remember_released(&mut self, h: &HandleId)
        ensures
            final(self).released() == (if old(self).released().contains(h@) {
                old(self).released()
            } else {
                old(self).released().push(h@)
            }),
            final(self).instances() == old(self).instances(),
            final(self).bindings() == old(self).bindings(),
            final(self).locks() == old(self).locks(),
            final(self).limits() == old(self).limits(),
            final(self).ids() == old(self).ids(),
            final(self).queued_budget() == old(self).queued_budget(),
            final(self).buffer_budget() == old(self).buffer_budget(),
            final(self).global_window() == old(self).global_window(),
            old(self).wf() ==> final(self).wf(),
    {
        if !self.is_released(h) {
            let ghost before = self.released();
            self.released_handles.push(h.as_str().to_owned());
            assert(self.released() =~= before.push(h@));
        }
    }

    /// Releases an instance; see `release_result`.
    pub fn release_instance(&mut self, handle_id: &HandleId, force: bool) -> (r: Result<
        InstanceSummary,
        DomainError,
    >)
        requires
            old(self).wf(),
        ensures
            final(self).wf(),
            release_result(*old(self), *final(self), handle_id@, force, r),
    {
        let k = match self.find(handle_id) {
            Some(k) => k,
            None => return Err(self.missing_handle_error(handle_id)),
        };
        let state = self.instances[k].state;
        if state == InstanceState::Connected && !force {
            let names = state_name_list(
                vec![
                    InstanceState::Created,
                    InstanceState::Configured,
                    InstanceState::Disconnected,
                    InstanceState::Error,
                ],
            );
            let e = DomainError::new(
                ErrorCategory::InvalidState,
                ErrorCode::ConnectedReleaseRequiresForce,
                "Connected instances require force=true before release.",
                "Call port_disconnect first, or retry instance_release with force=true.",
                false,
            ).with_detail("current_state", DetailValue::Text("Connected".to_owned())).with_detail(
                "allowed_states",
                DetailValue::TextList(names),
            );
            proof {
                let allowed = seq![
                    InstanceState::Created,
                    InstanceState::Configured,
                    InstanceState::Disconnected,
                    InstanceState::Error,
                ];
                assert(e.details@ =~= seq![
                    ("current_state"@, DetailView::Text("Connected"@)),
                    ("allowed_states"@, DetailView::TextList(state_names(allowed))),
                ]);
            }
            return Err(e);
        }
        if state == InstanceState::Disconnecting && !force {
            return Err(
                state_not_allowed(
                    "instance_release",
                    InstanceState::Disconnecting,
                    vec![
                        InstanceState::Created,
                        InstanceState::Configured,
                        InstanceState::Disconnected,
                        InstanceState::Error,
                    ],
                ),
            );
        }
        let ghost old_self = *self;
        let ghost old_instances = self.instances@;
        let summary = self.instances[k].summary_in(InstanceState::Released);
        let removed = self.instances.remove(k);
        let queued = tx_queue_bytes(&removed.tx_queue).saturating_add(
            subscribers_bytes(&removed.subscribers),
        );
        let rx_len = removed.rx_buffer.len();
        proof {
            lemma_queued_nonneg(removed);
            lemma_remove_instance(old_instances, k as int, self.ids);
            lemma_remove_rx(old_instances, k as int, keep_limit(self.limits));
            lemma_release_within(
                old_self.queued_bytes_budget as int,
                total_queued(old_instances),
                queued_of(removed),
                queued as int,
            );
            lemma_release_within(
                old_self.buffer_bytes_budget as int,
                total_rx(old_instances),
                rx_of(removed),
                rx_len as int,
            );
            assert(instance_wf(old_instances[k as int]));
        }
        self.queued_bytes_budget = self.queued_bytes_budget.saturating_sub(queued);
        self.buffer_bytes_budget = self.buffer_bytes_budget.saturating_sub(rx_len);
        self.remember_released(handle_id);
        self.unbind_handle(handle_id);
        if force {
            self.close_owned_locks(handle_id);
        } else {
            self.drop_owned_locks(handle_id);
        }
        Ok(summary)
    }
}

/// `i` after a mock disconnect: its tasks are finished cleanly, its
/// transmit queue and subscribers are emptied, and it is disconnected; its
/// receive buffer is kept.
pub open spec fn disconnected(old_i: RuntimeInstance, new_i: RuntimeInstance) -> bool {
    &&& new_i.handle_id == old_i.handle_id
    &&& new_i.instance_type == old_i.instance_type
    &&& new_i.state == InstanceState::Disconnected
    &&& new_i.config == old_i.config
    &&& new_i.task_group == (match old_i.task_group {
        Some(_) => Some(crate::runtime::tasks::TaskGroup::spec_finished(TaskExit::Clean)),
        None => None,
    })
    &&& new_i.tx_queue@.len() == 0
    &&& new_i.subscribers@.len() == 0
    &&& new_i.rx_buffer@ == old_i.rx_buffer@
    &&& new_i.stats == InstanceStats { tx_queue_items: 0, subscriber_count: 0, ..old_i.stats }
    &&& new_i.last_error == old_i.last_error
}

impl RuntimeRegistry {
    /// Opens a mock connection on a configured or disconnected instance,
    /// taking the lock its configuration names.
    pub fn connect_mock(&mut self, handle_id: &HandleId) -> (r: Result<InstanceSummary, DomainError>)
        requires
            old(self).wf(),
        ensures
            final(self).wf(),
            if !has_handle(old(self).instances(), handle_id@) {
                r matches Err(e) && old(self).missing_error(handle_id@, e) && *final(self) == *old(self)
            } else {
                let k = slot_of(old(self).instances(), handle_id@);
                let inst = old(self).instances()[k];
                if !(inst.state == InstanceState::Configured || inst.state
                    == InstanceState::Disconnected) {
                    r matches Err(e) && state_error(
                        e,
                        "connect_mock"@,
                        inst.state,
                        seq![InstanceState::Configured, InstanceState::Disconnected],
                    ) && *final(self) == *old(self)
                } else {
                    match mock_key(inst.config) {
                        None => r matches Err(e) && e.code == ErrorCode::ConfigRequired && e.category
                            == ErrorCategory::InvalidState && *final(self) == *old(self),
                        Some(key) => {
                            let locked = match key {
                                Some(kk) => lock_of(old(self).locks(), kk),
                                None => None,
                            };
                            match locked {
                                Some(entry) => r matches Err(e) && lock_error(
                                    e,
                                    key.unwrap(),
                                    entry.owner_handle_id@,
                                    entry.state,
                                ) && *final(self) == *old(self),
                                None => {
                                    &&& r matches Ok(s) && summarizes(
                                        s,
                                        connected(inst),
                                        InstanceState::Connected,
                                    )
                                    &&& final(self).instances() == old(self).instances().update(
                                        k,
                                        connected(inst),
                                    )
                                    &&& match key {
                                        Some(kk) => {
                                            &&& final(self).locks().len() == old(self).locks().len() + 1
                                            &&& final(self).locks().drop_last() == old(self).locks()
                                            &&& final(self).locks().last().0 == kk
                                            &&& final(self).locks().last().1.owner_handle_id@
                                                == inst.handle_id@
                                            &&& final(self).locks().last().1.state
                                                == ResourceLockState::Held
                                        },
                                        None => final(self).locks() == old(self).locks(),
                                    }
                                    &&& final(self).bindings() == old(self).bindings()
                                    &&& final(self).released() == old(self).released()
                                    &&& final(self).queued_budget() == old(self).queued_budget()
                                    &&& final(self).buffer_budget() == old(self).buffer_budget()
                                },
                            }
                        },
                    }
                }
            },
    {
        let k = match self.find(handle_id) {
            Some(k) => k,
            None => return Err(self.missing_handle_error(handle_id)),
        };
        let state = self.instances[k].state;
        if !(state == InstanceState::Configured || state == InstanceState::Disconnected) {
            return Err(
                state_not_allowed(
                    "connect_mock",
                    state,
                    vec![InstanceState::Configured, InstanceState::Disconnected],
                ),
            );
        }
        let key = match mock_resource_key(&self.instances[k].config) {
            None => {
                return Err(
                    DomainError::new(
                        ErrorCategory::InvalidState,
                        ErrorCode::ConfigRequired,
                        "Mock connect requires an instance configuration.",
                        "Configure the instance before connecting mock transport.",
                        false,
                    ),
                );
            },
            Some(key) => key,
        };
        let ghost old_locks = self.locks();
        match key {
            Some(key) => {
                let owner = self.instances[k].handle_id.duplicate();
                match self.acquire_resource_lock(key, &owner) {
                    Ok(()) => {},
                    Err(e) => return Err(e),
                }
            },
            None => {},
        }
        let ghost mid = self.instances@;
        assert(instance_wf(mid[k as int]));
        let mut inst = self.instances.remove(k);
        inst.task_group = Some(TaskGroup::new_for_tests());
        inst.state = InstanceState::Connected;
        let summary = inst.to_summary();
        self.instances.insert(k, inst);
        proof {
            assert(self.instances@ =~= mid.update(k as int, inst));
            lemma_replace_instance(mid, k as int, inst, self.ids);
            lemma_replace_rx(mid, k as int, inst, keep_limit(self.limits));
        }
        Ok(summary)
    }

    /// Closes a mock connection: owned locks are dropped, tasks finish, the
    /// transmit queue and subscribers are emptied and their bytes returned to
    /// the queued budget. Disconnecting a disconnected instance changes
    /// nothing.
    pub fn disconnect_mock(&mut self, handle_id: &HandleId) -> (r: Result<InstanceSummary, DomainError>)
        requires
            old(self).wf(),
        ensures
            final(self).wf(),
            if !has_handle(old(self).instances(), handle_id@) {
                r matches Err(e) && old(self).missing_error(handle_id@, e) && *final(self) == *old(self)
            } else {
                let k = slot_of(old(self).instances(), handle_id@);
                let inst = old(self).instances()[k];
                if inst.state == InstanceState::Disconnected {
                    r matches Ok(s) && summarizes(s, inst, InstanceState::Disconnected) && *final(self)
                        == *old(self)
                } else if !(inst.state == InstanceState::Connected || inst.state
                    == InstanceState::Error) {
                    r matches Err(e) && state_error(
                        e,
                        "disconnect_mock"@,
                        inst.state,
                        seq![
                            InstanceState::Connected,
                            InstanceState::Error,
                            InstanceState::Disconnected,
                        ],
                    ) && *final(self) == *old(self)
                } else {
                    &&& r matches Ok(s) && summarizes(
                        s,
                        final(self).instances()[k],
                        InstanceState::Disconnected,
                    )
                    &&& final(self).instances().len() == old(self).instances().len()
                    &&& disconnected(inst, final(self).instances()[k])
                    &&& forall|j: int|
                        0 <= j < old(self).instances().len() && j != k ==> #[trigger] final(self).instances()[j] == old(self).instances()[j]
                    &&& final(self).locks() == without_owned(old(self).locks(), handle_id@)
                    &&& final(self).queued_budget() == sat_sub(
                        old(self).queued_budget(),
                        crate::runtime::subscriptions::sat_usize(queued_of(inst)),
                    )
                    &&& final(self).buffer_budget() == old(self).buffer_budget()
                    &&& final(self).bindings() == old(self).bindings()
                    &&& final(self).released() == old(self).released()
                }
            },
    {
        let k = match self.find(handle_id) {
            Some(k) => k,
            None => return Err(self.missing_handle_error(handle_id)),
        };
        let state = self.instances[k].state;
        if state == InstanceState::Disconnected {
            return Ok(self.instances[k].to_summary());
        }
        if !(state == InstanceState::Connected || state == InstanceState::Error) {
            return Err(
                state_not_allowed(
                    "disconnect_mock",
                    state,
                    vec![
                        InstanceState::Connected,
                        InstanceState::Error,
                        InstanceState::Disconnected,
                    ],
                ),
            );
        }
        self.drop_owned_locks(handle_id);
        let ghost mid = self.instances@;
        let ghost old_budget = self.queued_bytes_budget;
        assert(instance_wf(mid[k as int]));
        let mut inst = self.instances.remove(k);
        let ghost before = inst;
        match &mut inst.task_group {
            Some(group) => {
                group.cancel();
                group.finish(TaskExit::Clean);
            },
            None => {},
        }
        let released = tx_queue_bytes(&inst.tx_queue).saturating_add(
            subscribers_bytes(&inst.subscribers),
        );
        inst.tx_queue.clear();
        inst.subscribers = Vec::new();
        inst.stats.tx_queue_items = 0;
        inst.stats.subscriber_count = 0;
        inst.state = InstanceState::Disconnected;
        let summary = inst.to_summary();
        proof {
            assert(tx_total(inst.tx_queue@) == 0);
            assert(subs_total(inst.subscribers@) == 0);
            lemma_queued_nonneg(before);
        }
        self.instances.insert(k, inst);
        proof {
            assert(self.instances@ =~= mid.update(k as int, inst));
            lemma_replace_instance(mid, k as int, inst, self.ids);
            lemma_replace_rx(mid, k as int, inst, keep_limit(self.limits));
            lemma_remove_instance(mid, k as int, self.ids);
            lemma_release_within(
                old_budget as int,
                total_queued(mid),
                queued_of(before),
                released as int,
            );
        }
        self.queued_bytes_budget = self.queued_bytes_budget.saturating_sub(released);
        Ok(summary)
    }
}

/// `i` after its mock task failed with `code`.
pub open spec fn failed_instance(
    old_i: RuntimeInstance,
    new_i: RuntimeInstance,
    error_id: Seq<char>,
    at: Timestamp,
    code: ErrorCode,
    message: Seq<char>,
) -> bool {
    &&& new_i.handle_id == old_i.handle_id
    &&& new_i.instance_type == old_i.instance_type
    &&& new_i.state == InstanceState::Error
    &&& new_i.config == old_i.config
    &&& new_i.stats == old_i.stats
    &&& new_i.task_group == (match old_i.task_group {
        Some(_) => Some(crate::runtime::tasks::TaskGroup::spec_finished(TaskExit::Failed(code))),
        None => None,
    })
    &&& new_i.tx_queue == old_i.tx_queue
    &&& new_i.rx_buffer == old_i.rx_buffer
    &&& new_i.subscribers == old_i.subscribers
    &&& new_i.last_error matches Some(le) && {
        &&& le.error_id@ == error_id
        &&& le.at == at
        &&& le.tool@ == "mock_task"@
        &&& le.category == ErrorCategory::WriteFailed
        &&& le.code == code
        &&& le.message@ == message
        &&& le.details@ == Seq::<(Seq<char>, DetailView)>::empty()
    }
}

/// Handles stay issued while the per-type handle counters are kept.
proof fn lemma_issued_kept(s: Seq<RuntimeInstance>, old_ids: IdGenerator, new_ids: IdGenerator)
    requires
        all_issued(old_ids, s),
        forall|t: InstanceType| new_ids.handles_issued(t) == old_ids.handles_issued(t),
    ensures
        all_issued(new_ids, s),
{
    assert forall|a: int| 0 <= a < s.len() implies #[trigger] handle_issued(new_ids, s[a]) by {
        assert(handle_issued(old_ids, s[a]));
        let t = s[a].instance_type;
        let k = choose|k: nat|
            1 <= k <= old_ids.handles_issued(t) && #[trigger] handle_text(t, k) == s[a].handle_id@;
        assert(1 <= k <= new_ids.handles_issued(t));
    }
}

/// Generator counters other than the error count are kept.
pub open spec fn same_but_errors(a: IdGenerator, b: IdGenerator) -> bool {
    &&& a.date() == b.date()
    &&& a.requests_issued() == b.requests_issued()
    &&& forall|t: InstanceType| a.handles_issued(t) == b.handles_issued(t)
}

impl RuntimeRegistry {
    /// Records a failure of the mock task of an instance at time `at`: the
    /// instance enters `Error` with the failure as its last error. An error id
    /// is drawn even when the handle is unknown.
    pub fn record_mock_task_failure(
        &mut self,
        handle_id: &HandleId,
        code: ErrorCode,
        message: &str,
        at: Timestamp,
    ) -> (r: Result<(), DomainError>)
        requires
            old(self).wf(),
            old(self).ids().errors_issued() < u64::MAX,
        ensures
            final(self).wf(),
            final(self).ids().errors_issued() == old(self).ids().errors_issued() + 1,
            same_but_errors(final(self).ids(), old(self).ids()),
            final(self).released() == old(self).released(),
            final(self).bindings() == old(self).bindings(),
            final(self).locks() == old(self).locks(),
            final(self).limits() == old(self).limits(),
            final(self).queued_budget() == old(self).queued_budget(),
            final(self).buffer_budget() == old(self).buffer_budget(),
            if !has_handle(old(self).instances(), handle_id@) {
                r matches Err(e) && old(self).missing_error(handle_id@, e) && final(self).instances()
                    == old(self).instances()
            } else {
                let k = slot_of(old(self).instances(), handle_id@);
                &&& r is Ok
                &&& final(self).instances().len() == old(self).instances().len()
                &&& failed_instance(
                    old(self).instances()[k],
                    final(self).instances()[k],
                    crate::model::ids::dated_text(
                        "err"@,
                        old(self).ids().date(),
                        old(self).ids().errors_issued() + 1,
                    ),
                    at,
                    code,
                    message@,
                )
                &&& forall|j: int|
                    0 <= j < old(self).instances().len() && j != k ==> #[trigger] final(self).instances()[j]
                        == old(self).instances()[j]
            },
    {
        let ghost old_ids = self.ids;
        let error_id = self.ids.next_error_id();
        proof {
            lemma_issued_kept(self.instances@, old_ids, self.ids);
        }
        let k = match self.find(handle_id) {
            Some(k) => k,
            None => return Err(self.missing_handle_error(handle_id)),
        };
        let ghost mid = self.instances@;
        assert(instance_wf(mid[k as int]));
        let mut inst = self.instances.remove(k);
        match &mut inst.task_group {
            Some(group) => group.finish(TaskExit::Failed(code)),
            None => {},
        }
        inst.state = InstanceState::Error;
        inst.last_error = Some(
            LastErrorSummary {
                error_id,
                at,
                tool: "mock_task".to_owned(),
                category: ErrorCategory::WriteFailed,
                code,
                message: message.to_owned(),
                recovery_hint: "Disconnect or release the mock instance before retrying.".to_owned(),
                details: ErrorDetails::new(),
            },
        );
        self.instances.insert(k, inst);
        proof {
            assert(self.instances@ =~= mid.update(k as int, inst));
            lemma_replace_instance(mid, k as int, inst, self.ids);
            lemma_replace_rx(mid, k as int, inst, keep_limit(self.limits));
        }
        Ok(())
    }

    /// Puts an instance in `state` directly.
    pub fn set_state_for_tests(&mut self, handle_id: &HandleId, state: InstanceState) -> (r: Result<
        (),
        DomainError,
    >)
        requires
            old(self).wf(),
        ensures
            final(self).wf(),
            if !has_handle(old(self).instances(), handle_id@) {
                r matches Err(e) && old(self).missing_error(handle_id@, e) && *final(self) == *old(self)
            } else {
                let k = slot_of(old(self).instances(), handle_id@);
                &&& r is Ok
                &&& final(self).instances() == old(self).instances().update(
                    k,
                    RuntimeInstance { state, ..old(self).instances()[k] },
                )
                &&& final(self).same_but_instances(old(self))
                &&& final(self).queued_budget() == old(self).queued_budget()
                &&& final(self).buffer_budget() == old(self).buffer_budget()
            },
    {
        let k = match self.find(handle_id) {
            Some(k) => k,
            None => return Err(self.missing_handle_error(handle_id)),
        };
        let ghost mid = self.instances@;
        assert(instance_wf(mid[k as int]));
        let mut inst = self.instances.remove(k);
        inst.state = state;
        self.instances.insert(k, inst);
        proof {
            assert(self.instances@ =~= mid.update(k as int, inst));
            lemma_replace_instance(mid, k as int, inst, self.ids);
            lemma_replace_rx(mid, k as int, inst, keep_limit(self.limits));
        }
        Ok(())
    }

    /// Refuses unless the instance is connected.
    pub fn ensure_connected(&self, handle_id: &HandleId, tool: &str) -> (r: Result<(), DomainError>)
        requires
            self.wf(),
        ensures
            if !has_handle(self.instances(), handle_id@) {
                r matches Err(e) && self.missing_error(handle_id@, e)
            } else if self.instance_of(handle_id@).state != InstanceState::Connected {
                r matches Err(e) && state_error(
                    e,
                    tool@,
                    self.instance_of(handle_id@).state,
                    seq![InstanceState::Connected],
                )
            } else {
                r is Ok
            },
    {
        let k = match self.find(handle_id) {
            Some(k) => k,
            None => return Err(self.missing_handle_error(handle_id)),
        };
        let state = self.instances[k].state;
        if state == InstanceState::Connected {
            Ok(())
        } else {
            let allowed = vec![InstanceState::Connected];
            assert(allowed@ =~= seq![InstanceState::Connected]);
            Err(state_not_allowed(tool, state, allowed))
        }
    }

    /// Refuses unless the instance is connected or in error.
    fn ensure_connected_or_error(&self, handle_id: &HandleId, tool: &str) -> (r: Result<(), DomainError>)
        requires
            self.wf(),
        ensures
            if !has_handle(self.instances(), handle_id@) {
                r matches Err(e) && self.missing_error(handle_id@, e)
            } else if !(self.instance_of(handle_id@).state == InstanceState::Connected
                || self.instance_of(handle_id@).state == InstanceState::Error) {
                r matches Err(e) && state_error(
                    e,
                    tool@,
                    self.instance_of(handle_id@).state,
                    seq![InstanceState::Connected, InstanceState::Error],
                )
            } else {
                r is Ok
            },
    {
        let k = match self.find(handle_id) {
            Some(k) => k,
            None => return Err(self.missing_handle_error(handle_id)),
        };
        let state = self.instances[k].state;
        if state == InstanceState::Connected || state == InstanceState::Error {
            Ok(())
        } else {
            Err(state_not_allowed(tool, state, vec![InstanceState::Connected, InstanceState::Error]))
        }
    }

    /// Accepts a pull size within the configured limit.
    pub fn validate_pull_max_bytes(&self, value: usize) -> (r: Result<usize, DomainError>)
        ensures
            match r {
                Ok(v) => v == value && value <= self.limits().pull_max_bytes,
                Err(e) => value > self.limits().pull_max_bytes && budget_error(
                    e,
                    ErrorCode::PullMaxBytesExceeded,
                    false,
                    self.limits().pull_max_bytes as int,
                    value as int,
                ),
            },
    {
        self.limits.validate_pull_max_bytes(value)
    }

    /// Accepts a frame within the configured limit.
    pub fn validate_tx_frame_len(&self, len: usize) -> (r: Result<(), DomainError>)
        ensures
            match r {
                Ok(()) => len <= self.limits().tx_frame_max_bytes,
                Err(e) => len > self.limits().tx_frame_max_bytes && budget_error(
                    e,
                    ErrorCode::TxFrameTooLarge,
                    true,
                    self.limits().tx_frame_max_bytes as int,
                    len as int,
                ),
            },
    {
        self.limits.validate_tx_frame_len(len)
    }

    pub fn tx_frame_max_bytes(&self) -> (n: usize)
        ensures
            n == self.limits().tx_frame_max_bytes,
    {
        self.limits.tx_frame_max_bytes
    }

    pub fn default_pull_max_bytes(&self) -> (n: usize)
        ensures
            n == self.limits().pull_default_max_bytes,
    {
        self.limits.pull_default_max_bytes
    }

    pub fn buffer_bytes_for_tests(&self) -> (n: usize)
        ensures
            n == self.buffer_budget(),
    {
        self.buffer_bytes_budget
    }

    pub fn queued_bytes_for_tests(&self) -> (n: usize)
        ensures
            n == self.queued_budget(),
    {
        self.queued_bytes_budget
    }
}

/// The bytes of queued frames, in order.
pub open spec fn frame_views(q: Seq<SendItem>) -> Seq<Seq<u8>> {
    q.map_values(|it: SendItem| it.bytes@)
}

/// Everything of an instance but its transmit queue, receive buffer,
/// subscribers and counters is kept.
pub open spec fn same_identity(a: RuntimeInstance, b: RuntimeInstance) -> bool {
    &&& a.handle_id == b.handle_id
    &&& a.instance_type == b.instance_type
    &&& a.state == b.state
    &&& a.config == b.config
    &&& a.task_group == b.task_group
    &&& a.last_error == b.last_error
}

/// Only the instance at `k` changed.
pub open spec fn only_changed(old: Seq<RuntimeInstance>, new: Seq<RuntimeInstance>, k: int) -> bool {
    &&& new.len() == old.len()
    &&& forall|j: int| 0 <= j < old.len() && j != k ==> #[trigger] new[j] == old[j]
}

impl RuntimeRegistry {
    /// Queues a frame on a connected instance within the frame, queue and
    /// queued-bytes limits.
    pub fn port_send_mock(&mut self, handle_id: &HandleId, bytes: &[u8]) -> (r: Result<SendResult, DomainError>)
        requires
            old(self).wf(),
        ensures
            final(self).wf(),
            final(self).same_but_instances(old(self)),
            final(self).buffer_budget() == old(self).buffer_budget(),
            match r {
                Ok(res) => {
                    let k = slot_of(old(self).instances(), handle_id@);
                    let inst = old(self).instances()[k];
                    &&& has_handle(old(self).instances(), handle_id@)
                    &&& inst.state == InstanceState::Connected
                    &&& bytes@.len() <= old(self).limits().tx_frame_max_bytes
                    &&& inst.tx_queue@.len() < old(self).limits().tx_queue_max_items
                    &&& crate::runtime::subscriptions::sat_usize(old(self).queued_budget() + bytes@.len())
                        <= old(self).limits().max_total_queued_bytes
                    &&& res.queued && res.sent_bytes == bytes@.len() && res.target is None
                    &&& only_changed(old(self).instances(), final(self).instances(), k)
                    &&& same_identity(final(self).instances()[k], inst)
                    &&& frame_views(final(self).instances()[k].tx_queue@) == frame_views(
                        inst.tx_queue@,
                    ).push(bytes@)
                    &&& final(self).instances()[k].rx_buffer@ == inst.rx_buffer@
                    &&& final(self).instances()[k].subscribers == inst.subscribers
                    &&& final(self).queued_budget() == crate::runtime::subscriptions::sat_usize(
                        old(self).queued_budget() + bytes@.len(),
                    )
                },
                Err(e) => {
                    &&& final(self).instances() == old(self).instances()
                    &&& final(self).queued_budget() == old(self).queued_budget()
                    &&& if !has_handle(old(self).instances(), handle_id@) {
                        old(self).missing_error(handle_id@, e)
                    } else if old(self).instance_of(handle_id@).state != InstanceState::Connected {
                        state_error(
                            e,
                            "port_send"@,
                            old(self).instance_of(handle_id@).state,
                            seq![InstanceState::Connected],
                        )
                    } else if bytes@.len() > old(self).limits().tx_frame_max_bytes {
                        budget_error(
                            e,
                            ErrorCode::TxFrameTooLarge,
                            true,
                            old(self).limits().tx_frame_max_bytes as int,
                            bytes@.len() as int,
                        )
                    } else if old(self).instance_of(handle_id@).tx_queue@.len()
                        >= old(self).limits().tx_queue_max_items {
                        budget_error(
                            e,
                            ErrorCode::TxQueueFull,
                            true,
                            old(self).limits().tx_queue_max_items as int,
                            crate::runtime::subscriptions::sat_usize(
                                old(self).instance_of(handle_id@).tx_queue@.len() + 1int,
                            ),
                        )
                    } else {
                        &&& crate::runtime::subscriptions::sat_usize(
                            old(self).queued_budget() + bytes@.len(),
                        ) > old(self).limits().max_total_queued_bytes
                        &&& budget_error(
                            e,
                            ErrorCode::TxQueueFull,
                            true,
                            old(self).limits().max_total_queued_bytes as int,
                            crate::runtime::subscriptions::sat_usize(
                                old(self).queued_budget() + bytes@.len(),
                            ),
                        )
                    }
                },
            },
    {
        match self.ensure_connected(handle_id, "port_send") {
            Ok(()) => {},
            Err(e) => return Err(e),
        }
        let k = match self.find(handle_id) {
            Some(k) => k,
            None => return Err(self.missing_handle_error(handle_id)),
        };
        let len = bytes.len();
        if len > self.limits.tx_frame_max_bytes {
            return Err(
                budget_exceeded(
                    ErrorCode::TxFrameTooLarge,
                    "TX frame exceeds tx_frame_max_bytes.",
                    "Reduce payload size, pull or clear buffered data, then retry.",
                    true,
                    self.limits.tx_frame_max_bytes,
                    len,
                ),
            );
        }
        let queued_items = self.instances[k].tx_queue.len();
        if queued_items >= self.limits.tx_queue_max_items {
            return Err(
                budget_exceeded(
                    ErrorCode::TxQueueFull,
                    "TX queue is full.",
                    "Reduce payload size, pull or clear buffered data, then retry.",
                    true,
                    self.limits.tx_queue_max_items,
                    queued_items.saturating_add(1),
                ),
            );
        }
        let requested = self.queued_bytes_budget.saturating_add(len);
        if requested > self.limits.max_total_queued_bytes {
            return Err(
                budget_exceeded(
                    ErrorCode::TxQueueFull,
                    "Queued bytes budget would be exceeded.",
                    "Reduce payload size, pull or clear buffered data, then retry.",
                    true,
                    self.limits.max_total_queued_bytes,
                    requested,
                ),
            );
        }
        let ghost mid = self.instances@;
        assert(instance_wf(mid[k as int]));
        let mut inst = self.instances.remove(k);
        let ghost before = inst;
        inst.tx_queue.push_back(SendItem { bytes: vstd::slice::slice_to_vec(bytes) });
        inst.stats.tx_queue_items = inst.tx_queue.len();
        self.instances.insert(k, inst);
        proof {
            assert(self.instances@ =~= mid.update(k as int, inst));
            lemma_replace_instance(mid, k as int, inst, self.ids);
            lemma_replace_rx(mid, k as int, inst, keep_limit(self.limits));
            lemma_sum_push(before.tx_queue@, inst.tx_queue@.last(), |it: SendItem| it.bytes@.len() as int);
            assert(inst.tx_queue@.drop_last() =~= before.tx_queue@);
            assert(frame_views(inst.tx_queue@) =~= frame_views(before.tx_queue@).push(bytes@));
        }
        self.queued_bytes_budget = requested;
        Ok(SendResult { queued: true, sent_bytes: len, target: None })
    }
}

/// `a + b` saturated at `u64::MAX`.
pub open spec fn sat_add_u64(a: int, b: int) -> int {
    crate::runtime::subscriptions::sat_u64(a + b)
}

fn drain_frames(q: &mut VecDeque<SendItem>) -> (frames: Vec<Vec<u8>>)
    ensures
        final(q)@.len() == 0,
        frames@.map_values(|v: Vec<u8>| v@) == frame_views(old(q)@),
{
    let ghost queued_before = q@;
    let mut frames: Vec<Vec<u8>> = Vec::new();
    while q.len() > 0
        invariant
            queued_before.len() == frames@.len() + q@.len(),
            q@ == queued_before.skip(frames@.len() as int),
            frames@.map_values(|v: Vec<u8>| v@) == frame_views(queued_before.take(frames@.len() as int)),
        decreases q@.len(),
    {
        let ghost n: int = frames@.len() as int;
        let ghost prev = frames@;
        match q.pop_front() {
            Some(item) => {
                frames.push(item.bytes);
                proof {
                    assert(queued_before.take(n + 1) =~= queued_before.take(n).push(queued_before[n]));
                    assert(frames@.map_values(|v: Vec<u8>| v@) =~= prev.map_values(|v: Vec<u8>| v@).push(
                        queued_before[n].bytes@,
                    ));
                    assert(frame_views(queued_before.take(n + 1)) =~= frame_views(queued_before.take(n)).push(
                        queued_before[n].bytes@,
                    ));
                    assert(q@ =~= queued_before.skip(n + 1));
                }
            },
            None => {},
        }
    }
    assert(queued_before.take(queued_before.len() as int) =~= queued_before);
    frames
}

impl RuntimeRegistry {
    /// Hands every queued frame of a connected instance to the transport,
    /// oldest first, counting them as sent and returning their bytes to the
    /// queued budget.
    pub fn flush_mock_tx(&mut self, handle_id: &HandleId) -> (r: Result<FlushResult, DomainError>)
        requires
            old(self).wf(),
        ensures
            final(self).wf(),
            final(self).same_but_instances(old(self)),
            final(self).buffer_budget() == old(self).buffer_budget(),
            match r {
                Ok(res) => {
                    let k = slot_of(old(self).instances(), handle_id@);
                    let inst = old(self).instances()[k];
                    let sent = crate::runtime::subscriptions::sat_usize(tx_total(inst.tx_queue@));
                    &&& has_handle(old(self).instances(), handle_id@)
                    &&& inst.state == InstanceState::Connected
                    &&& res.frames@.map_values(|v: Vec<u8>| v@) == frame_views(inst.tx_queue@)
                    &&& only_changed(old(self).instances(), final(self).instances(), k)
                    &&& same_identity(final(self).instances()[k], inst)
                    &&& final(self).instances()[k].tx_queue@.len() == 0
                    &&& final(self).instances()[k].rx_buffer@ == inst.rx_buffer@
                    &&& final(self).instances()[k].subscribers == inst.subscribers
                    &&& final(self).instances()[k].stats.tx_bytes == sat_add_u64(
                        inst.stats.tx_bytes as int,
                        sent,
                    )
                    &&& final(self).queued_budget() == sat_sub(old(self).queued_budget(), sent)
                },
                Err(e) => {
                    &&& *final(self) == *old(self)
                    &&& if !has_handle(old(self).instances(), handle_id@) {
                        old(self).missing_error(handle_id@, e)
                    } else {
                        &&& old(self).instance_of(handle_id@).state != InstanceState::Connected
                        &&& state_error(
                            e,
                            "flush_mock_tx"@,
                            old(self).instance_of(handle_id@).state,
                            seq![InstanceState::Connected],
                        )
                    }
                },
            },
    {
        match self.ensure_connected(handle_id, "flush_mock_tx") {
            Ok(()) => {},
            Err(e) => return Err(e),
        }
        let k = match self.find(handle_id) {
            Some(k) => k,
            None => return Err(self.missing_handle_error(handle_id)),
        };
        let ghost mid = self.instances@;
        let ghost old_budget = self.queued_bytes_budget;
        assert(instance_wf(mid[k as int]));
        let mut inst = self.instances.remove(k);
        let ghost before = inst;
        let sent = tx_queue_bytes(&inst.tx_queue);
        let frames = drain_frames(&mut inst.tx_queue);
        inst.stats.tx_queue_items = 0;
        inst.stats.tx_bytes = inst.stats.tx_bytes.saturating_add(sent as u64);
        self.instances.insert(k, inst);
        proof {
            assert(self.instances@ =~= mid.update(k as int, inst));
            lemma_replace_instance(mid, k as int, inst, self.ids);
            lemma_replace_rx(mid, k as int, inst, keep_limit(self.limits));
            assert(tx_total(inst.tx_queue@) == 0);
            lemma_queued_nonneg(before);
            lemma_totals_nonneg(self.instances@);
            lemma_release_within(
                old_budget as int,
                total_queued(mid),
                tx_total(before.tx_queue@),
                sent as int,
            );
        }
        self.queued_bytes_budget = self.queued_bytes_budget.saturating_sub(sent);
        Ok(FlushResult { frames })
    }

    /// Takes up to `max_bytes` (or the default pull size) from the front of
    /// the receive buffer of a connected instance.
    pub fn port_pull_mock(&mut self, handle_id: &HandleId, max_bytes: Option<usize>) -> (r: Result<
        PullResult,
        DomainError,
    >)
        requires
            old(self).wf(),
        ensures
            final(self).wf(),
            final(self).same_but_instances(old(self)),
            final(self).queued_budget() == old(self).queued_budget(),
            match r {
                Ok(res) => {
                    let k = slot_of(old(self).instances(), handle_id@);
                    let inst = old(self).instances()[k];
                    let max = match max_bytes {
                        Some(v) => v as int,
                        None => old(self).limits().pull_default_max_bytes as int,
                    };
                    let take = if max < inst.rx_buffer@.len() {
                        max
                    } else {
                        inst.rx_buffer@.len() as int
                    };
                    &&& has_handle(old(self).instances(), handle_id@)
                    &&& inst.state == InstanceState::Connected
                    &&& (max_bytes matches Some(v) ==> v <= old(self).limits().pull_max_bytes)
                    &&& inst.rx_buffer@.len() > 0
                    &&& res.bytes@ == inst.rx_buffer@.take(take)
                    &&& res.remaining_rx_buffer_bytes == inst.rx_buffer@.len() - take
                    &&& res.truncated == (res.remaining_rx_buffer_bytes > 0)
                    &&& res.source is None
                    &&& only_changed(old(self).instances(), final(self).instances(), k)
                    &&& same_identity(final(self).instances()[k], inst)
                    &&& final(self).instances()[k].rx_buffer@ == inst.rx_buffer@.skip(take)
                    &&& final(self).instances()[k].tx_queue == inst.tx_queue
                    &&& final(self).instances()[k].subscribers == inst.subscribers
                    &&& final(self).buffer_budget() == sat_sub(old(self).buffer_budget(), take)
                },
                Err(e) => {
                    &&& *final(self) == *old(self)
                    &&& if !has_handle(old(self).instances(), handle_id@) {
                        old(self).missing_error(handle_id@, e)
                    } else if old(self).instance_of(handle_id@).state != InstanceState::Connected {
                        state_error(
                            e,
                            "port_pull"@,
                            old(self).instance_of(handle_id@).state,
                            seq![InstanceState::Connected],
                        )
                    } else if max_bytes matches Some(v) && v > old(self).limits().pull_max_bytes {
                        budget_error(
                            e,
                            ErrorCode::PullMaxBytesExceeded,
                            false,
                            old(self).limits().pull_max_bytes as int,
                            max_bytes.unwrap() as int,
                        )
                    } else {
                        &&& old(self).instance_of(handle_id@).rx_buffer@.len() == 0
                        &&& crate::model::error::plain_error(
                            e,
                            ErrorCategory::ReadTimeout,
                            ErrorCode::ReadTimeout,
                            true,
                        )
                    }
                },
            },
    {
        match self.ensure_connected(handle_id, "port_pull") {
            Ok(()) => {},
            Err(e) => return Err(e),
        }
        let max = match max_bytes {
            Some(value) => match self.limits.validate_pull_max_bytes(value) {
                Ok(v) => v,
                Err(e) => return Err(e),
            },
            None => self.limits.pull_default_max_bytes,
        };
        let k = match self.find(handle_id) {
            Some(k) => k,
            None => return Err(self.missing_handle_error(handle_id)),
        };
        if self.instances[k].rx_buffer.len() == 0 {
            return Err(DomainError::read_timeout());
        }
        let ghost mid = self.instances@;
        let ghost old_budget = self.buffer_bytes_budget;
        assert(instance_wf(mid[k as int]));
        let mut inst = self.instances.remove(k);
        let ghost before = inst;
        let take = if max < inst.rx_buffer.len() {
            max
        } else {
            inst.rx_buffer.len()
        };
        let mut bytes: Vec<u8> = Vec::new();
        while bytes.len() < take
            invariant
                take <= before.rx_buffer@.len(),
                bytes@.len() <= take,
                bytes@ == before.rx_buffer@.take(bytes@.len() as int),
                inst.rx_buffer@ == before.rx_buffer@.skip(bytes@.len() as int),
                same_identity(inst, before),
                inst.tx_queue == before.tx_queue,
                inst.subscribers == before.subscribers,
                inst.stats == before.stats,
            decreases take - bytes@.len(),
        {
            let ghost n: int = bytes@.len() as int;
            match inst.rx_buffer.pop_front() {
                Some(b) => {
                    bytes.push(b);
                    proof {
                        assert(bytes@ =~= before.rx_buffer@.take(n + 1));
                        assert(inst.rx_buffer@ =~= before.rx_buffer@.skip(n + 1));
                    }
                },
                None => {},
            }
        }
        let remaining = inst.rx_buffer.len();
        inst.stats.rx_buffer_bytes = remaining;
        self.instances.insert(k, inst);
        proof {
            assert(self.instances@ =~= mid.update(k as int, inst));
            lemma_replace_instance(mid, k as int, inst, self.ids);
            lemma_replace_rx(mid, k as int, inst, keep_limit(self.limits));
            lemma_totals_nonneg(self.instances@);
        }
        self.buffer_bytes_budget = self.buffer_bytes_budget.saturating_sub(take);
        Ok(PullResult { bytes, truncated: remaining > 0, remaining_rx_buffer_bytes: remaining, source: None })
    }

    /// Empties the transmit queue, the receive buffer or both of a connected
    /// or failed instance, returning their bytes to the budgets.
    pub fn port_clear_mock(&mut self, handle_id: &HandleId, target: ClearTarget) -> (r: Result<
        ClearResult,
        DomainError,
    >)
        requires
            old(self).wf(),
        ensures
            final(self).wf(),
            final(self).same_but_instances(old(self)),
            match r {
                Ok(res) => {
                    let k = slot_of(old(self).instances(), handle_id@);
                    let inst = old(self).instances()[k];
                    let tx = target == ClearTarget::Tx || target == ClearTarget::All;
                    let rx = target == ClearTarget::Rx || target == ClearTarget::All;
                    let tx_bytes = crate::runtime::subscriptions::sat_usize(tx_total(inst.tx_queue@));
                    &&& has_handle(old(self).instances(), handle_id@)
                    &&& (inst.state == InstanceState::Connected || inst.state == InstanceState::Error)
                    &&& res.dropped_tx_items == (if tx { inst.tx_queue@.len() as int } else { 0 })
                    &&& res.dropped_tx_bytes == (if tx { tx_bytes } else { 0 })
                    &&& res.dropped_rx_bytes == (if rx { inst.rx_buffer@.len() as int } else { 0 })
                    &&& only_changed(old(self).instances(), final(self).instances(), k)
                    &&& same_identity(final(self).instances()[k], inst)
                    &&& final(self).instances()[k].tx_queue@ == (if tx {
                        Seq::empty()
                    } else {
                        inst.tx_queue@
                    })
                    &&& final(self).instances()[k].rx_buffer@ == (if rx {
                        Seq::empty()
                    } else {
                        inst.rx_buffer@
                    })
                    &&& final(self).instances()[k].subscribers == inst.subscribers
                    &&& final(self).queued_budget() == sat_sub(
                        old(self).queued_budget(),
                        res.dropped_tx_bytes as int,
                    )
                    &&& final(self).buffer_budget() == sat_sub(
                        old(self).buffer_budget(),
                        res.dropped_rx_bytes as int,
                    )
                },
                Err(e) => {
                    &&& *final(self) == *old(self)
                    &&& if !has_handle(old(self).instances(), handle_id@) {
                        old(self).missing_error(handle_id@, e)
                    } else {
                        state_error(
                            e,
                            "port_clear"@,
                            old(self).instance_of(handle_id@).state,
                            seq![InstanceState::Connected, InstanceState::Error],
                        )
                    }
                },
            },
    {
        match self.ensure_connected_or_error(handle_id, "port_clear") {
            Ok(()) => {},
            Err(e) => return Err(e),
        }
        let k = match self.find(handle_id) {
            Some(k) => k,
            None => return Err(self.missing_handle_error(handle_id)),
        };
        let ghost mid = self.instances@;
        let ghost old_q = self.queued_bytes_budget;
        let ghost old_b = self.buffer_bytes_budget;
        assert(instance_wf(mid[k as int]));
        let mut inst = self.instances.remove(k);
        let ghost before = inst;
        let mut result = ClearResult { dropped_tx_items: 0, dropped_tx_bytes: 0, dropped_rx_bytes: 0 };
        if target == ClearTarget::Tx || target == ClearTarget::All {
            result.dropped_tx_items = inst.tx_queue.len();
            result.dropped_tx_bytes = tx_queue_bytes(&inst.tx_queue);
            inst.tx_queue.clear();
            inst.stats.tx_queue_items = 0;
        }
        if target == ClearTarget::Rx || target == ClearTarget::All {
            result.dropped_rx_bytes = inst.rx_buffer.len();
            inst.rx_buffer.clear();
            inst.stats.rx_buffer_bytes = 0;
        }
        self.instances.insert(k, inst);
        proof {
            assert(self.instances@ =~= mid.update(k as int, inst));
            lemma_replace_instance(mid, k as int, inst, self.ids);
            lemma_replace_rx(mid, k as int, inst, keep_limit(self.limits));
            lemma_queued_nonneg(before);
            lemma_totals_nonneg(self.instances@);
            if target == ClearTarget::Tx || target == ClearTarget::All {
                assert(tx_total(inst.tx_queue@) == 0);
                lemma_release_within(
                    old_q as int,
                    total_queued(mid),
                    tx_total(before.tx_queue@),
                    result.dropped_tx_bytes as int,
                );
            }
        }
        self.queued_bytes_budget = self.queued_bytes_budget.saturating_sub(result.dropped_tx_bytes);
        self.buffer_bytes_budget = self.buffer_bytes_budget.saturating_sub(result.dropped_rx_bytes);
        Ok(result)
    }
}

/// The position of the subscriber of `session`.
pub open spec fn session_slot(subs: Seq<(String, Subscriber)>, session: Seq<char>) -> int {
    choose|k: int| 0 <= k < subs.len() && #[trigger] subs[k].0@ == session
}

fn find_subscriber(subs: &Vec<(String, Subscriber)>, session: &str) -> (r: Option<usize>)
    requires
        forall|a: int, b: int|
            0 <= a < b < subs@.len() ==> #[trigger] subs@[a].0@ != #[trigger] subs@[b].0@,
    ensures
        match r {
            Some(k) => k < subs@.len() && subs@[k as int].0@ == session@ && session_slot(subs@, session@)
                == k && has_session(subs@, session@),
            None => !has_session(subs@, session@),
        },
{
    let mut k: usize = 0;
    while k < subs.len()
        invariant
            k <= subs@.len(),
            forall|j: int| 0 <= j < k ==> subs@[j].0@ != session@,
            forall|a: int, b: int|
                0 <= a < b < subs@.len() ==> #[trigger] subs@[a].0@ != #[trigger] subs@[b].0@,
        decreases subs@.len() - k,
    {
        if crate::util::text::str_eq(subs[k].0.as_str(), session) {
            proof {
                let c = session_slot(subs@, session@);
                assert(has_session(subs@, session@));
                if c != k {
                    if c < k {
                        assert(subs@[c].0@ != subs@[k as int].0@);
                    } else {
                        assert(subs@[k as int].0@ != subs@[c].0@);
                    }
                }
            }
            return Some(k);
        }
        k = k + 1;
    }
    None
}

impl RuntimeRegistry {
    /// Subscribes `session_id` to a connected instance, with its payload cap
    /// bounded by the limit; a session already subscribed only gets the new
    /// cap. New sessions are refused beyond the per-instance limit.
    pub fn subscribe_mock(&mut self, handle_id: &HandleId, session_id: &str, max_payload_bytes: usize) -> (r:
        Result<SubscriptionResult, DomainError>)
        requires
            old(self).wf(),
        ensures
            final(self).wf(),
            final(self).same_but_instances(old(self)),
            final(self).queued_budget() == old(self).queued_budget(),
            final(self).buffer_budget() == old(self).buffer_budget(),
            match r {
                Ok(res) => {
                    let k = slot_of(old(self).instances(), handle_id@);
                    let inst = old(self).instances()[k];
                    let cap = if max_payload_bytes < old(self).limits().subscriber_payload_max_bytes {
                        max_payload_bytes
                    } else {
                        old(self).limits().subscriber_payload_max_bytes
                    };
                    let subs = final(self).instances()[k].subscribers@;
                    &&& has_handle(old(self).instances(), handle_id@)
                    &&& inst.state == InstanceState::Connected
                    &&& res.was_subscribed == has_session(inst.subscribers@, session_id@)
                    &&& only_changed(old(self).instances(), final(self).instances(), k)
                    &&& same_identity(final(self).instances()[k], inst)
                    &&& final(self).instances()[k].tx_queue == inst.tx_queue
                    &&& final(self).instances()[k].rx_buffer == inst.rx_buffer
                    &&& if res.was_subscribed {
                        let j = session_slot(inst.subscribers@, session_id@);
                        &&& subs.len() == inst.subscribers@.len()
                        &&& subs[j].1.max_payload_bytes == cap
                        &&& subs[j].1.queue == inst.subscribers@[j].1.queue
                        &&& forall|x: int| 0 <= x < subs.len() && x != j ==> #[trigger] subs[x] == inst.subscribers@[x]
                    } else {
                        &&& inst.subscribers@.len() < old(self).limits().max_subscribers_per_instance
                        &&& subs.len() == inst.subscribers@.len() + 1
                        &&& subs.drop_last() == inst.subscribers@
                        &&& subs.last().0@ == session_id@
                        &&& subs.last().1.max_payload_bytes == cap
                        &&& subs.last().1.queue@.len() == 0
                    }
                },
                Err(e) => {
                    &&& *final(self) == *old(self)
                    &&& if !has_handle(old(self).instances(), handle_id@) {
                        old(self).missing_error(handle_id@, e)
                    } else if old(self).instance_of(handle_id@).state != InstanceState::Connected {
                        state_error(
                            e,
                            "port_subscribe_stream"@,
                            old(self).instance_of(handle_id@).state,
                            seq![InstanceState::Connected],
                        )
                    } else {
                        let subs = old(self).instance_of(handle_id@).subscribers@;
                        &&& !has_session(subs, session_id@)
                        &&& subs.len() >= old(self).limits().max_subscribers_per_instance
                        &&& budget_error(
                            e,
                            ErrorCode::SubscriberLimitExceeded,
                            true,
                            old(self).limits().max_subscribers_per_instance as int,
                            crate::runtime::subscriptions::sat_usize(subs.len() + 1int),
                        )
                    }
                },
            },
    {
        match self.ensure_connected(handle_id, "port_subscribe_stream") {
            Ok(()) => {},
            Err(e) => return Err(e),
        }
        let cap = if max_payload_bytes < self.limits.subscriber_payload_max_bytes {
            max_payload_bytes
        } else {
            self.limits.subscriber_payload_max_bytes
        };
        let limit = self.limits.max_subscribers_per_instance;
        let k = match self.find(handle_id) {
            Some(k) => k,
            None => return Err(self.missing_handle_error(handle_id)),
        };
        let ghost mid = self.instances@;
        assert(instance_wf(mid[k as int]));
        let existing = find_subscriber(&self.instances[k].subscribers, session_id);
        let count = self.instances[k].subscribers.len();
        if existing.is_none() && count >= limit {
            return Err(
                budget_exceeded(
                    ErrorCode::SubscriberLimitExceeded,
                    "Subscriber limit exceeded for this instance.",
                    "Reduce payload size, pull or clear buffered data, then retry.",
                    true,
                    limit,
                    count.saturating_add(1),
                ),
            );
        }
        let mut inst = self.instances.remove(k);
        let ghost before = inst;
        match existing {
            Some(j) => {
                let (name, mut sub) = inst.subscribers.remove(j);
                sub.max_payload_bytes = cap;
                inst.subscribers.insert(j, (name, sub));
                proof {
                    let subs = inst.subscribers@;
                    assert(subs =~= before.subscribers@.update(j as int, subs[j as int]));
                    lemma_sum_update(
                        before.subscribers@,
                        j as int,
                        subs[j as int],
                        |p: (String, Subscriber)| payload_total(p.1.queue@),
                    );
                    assert forall|a: int, b: int| 0 <= a < b < subs.len() implies #[trigger] subs[a].0@
                        != #[trigger] subs[b].0@ by {
                        assert(subs[a].0 == before.subscribers@[a].0 && subs[b].0
                            == before.subscribers@[b].0);
                    }
                }
            },
            None => {
                inst.subscribers.push((session_id.to_owned(), Subscriber::new(cap)));
                proof {
                    let subs = inst.subscribers@;
                    assert(subs.drop_last() =~= before.subscribers@);
                    lemma_sum_push(
                        before.subscribers@,
                        subs.last(),
                        |p: (String, Subscriber)| payload_total(p.1.queue@),
                    );
                    assert(payload_total(subs.last().1.queue@) == 0);
                    assert forall|a: int, b: int| 0 <= a < b < subs.len() implies #[trigger] subs[a].0@
                        != #[trigger] subs[b].0@ by {
                        if b == subs.len() - 1 {
                            assert(subs[a] == before.subscribers@[a]);
                        } else {
                            assert(subs[a] == before.subscribers@[a] && subs[b]
                                == before.subscribers@[b]);
                        }
                    }
                }
            },
        }
        inst.stats.subscriber_count = inst.subscribers.len();
        self.instances.insert(k, inst);
        proof {
            assert(self.instances@ =~= mid.update(k as int, inst));
            lemma_replace_instance(mid, k as int, inst, self.ids);
            lemma_replace_rx(mid, k as int, inst, keep_limit(self.limits));
        }
        Ok(SubscriptionResult { was_subscribed: existing.is_some() })
    }

    /// Removes the subscriber of `session_id` from a connected or failed
    /// instance, returning its queued bytes to the budget; unknown sessions
    /// are reported as not subscribed.
    pub fn unsubscribe_mock(&mut self, handle_id: &HandleId, session_id: &str) -> (r: Result<
        UnsubscribeResult,
        DomainError,
    >)
        requires
            old(self).wf(),
        ensures
            final(self).wf(),
            final(self).same_but_instances(old(self)),
            final(self).buffer_budget() == old(self).buffer_budget(),
            match r {
                Ok(res) => {
                    let k = slot_of(old(self).instances(), handle_id@);
                    let inst = old(self).instances()[k];
                    let subs = final(self).instances()[k].subscribers@;
                    &&& has_handle(old(self).instances(), handle_id@)
                    &&& (inst.state == InstanceState::Connected || inst.state == InstanceState::Error)
                    &&& res.was_subscribed == has_session(inst.subscribers@, session_id@)
                    &&& only_changed(old(self).instances(), final(self).instances(), k)
                    &&& same_identity(final(self).instances()[k], inst)
                    &&& final(self).instances()[k].tx_queue == inst.tx_queue
                    &&& final(self).instances()[k].rx_buffer == inst.rx_buffer
                    &&& if res.was_subscribed {
                        let j = session_slot(inst.subscribers@, session_id@);
                        &&& subs == inst.subscribers@.remove(j)
                        &&& final(self).queued_budget() == sat_sub(
                            old(self).queued_budget(),
                            crate::runtime::subscriptions::sat_usize(
                                payload_total(inst.subscribers@[j].1.queue@),
                            ),
                        )
                    } else {
                        &&& subs == inst.subscribers@
                        &&& final(self).queued_budget() == old(self).queued_budget()
                    }
                },
                Err(e) => {
                    &&& *final(self) == *old(self)
                    &&& if !has_handle(old(self).instances(), handle_id@) {
                        old(self).missing_error(handle_id@, e)
                    } else {
                        state_error(
                            e,
                            "port_unsubscribe_stream"@,
                            old(self).instance_of(handle_id@).state,
                            seq![InstanceState::Connected, InstanceState::Error],
                        )
                    }
                },
            },
    {
        match self.ensure_connected_or_error(handle_id, "port_unsubscribe_stream") {
            Ok(()) => {},
            Err(e) => return Err(e),
        }
        let k = match self.find(handle_id) {
            Some(k) => k,
            None => return Err(self.missing_handle_error(handle_id)),
        };
        let ghost mid = self.instances@;
        let ghost old_q = self.queued_bytes_budget;
        assert(instance_wf(mid[k as int]));
        let mut inst = self.instances.remove(k);
        let ghost before = inst;
        let existing = find_subscriber(&inst.subscribers, session_id);
        let mut released: usize = 0;
        match existing {
            Some(j) => {
                let (_name, sub) = inst.subscribers.remove(j);
                released = sub.queued_bytes();
                proof {
                    let subs = inst.subscribers@;
                    assert(subs =~= before.subscribers@.remove(j as int));
                    lemma_sum_remove(
                        before.subscribers@,
                        j as int,
                        |p: (String, Subscriber)| payload_total(p.1.queue@),
                    );
                    assert forall|a: int, b: int| 0 <= a < b < subs.len() implies #[trigger] subs[a].0@
                        != #[trigger] subs[b].0@ by {
                        let a2 = if a < j { a } else { a + 1 };
                        let b2 = if b < j { b } else { b + 1 };
                        assert(subs[a] == before.subscribers@[a2] && subs[b]
                            == before.subscribers@[b2]);
                    }
                    crate::runtime::subscriptions::lemma_payload_total_nonneg(sub.queue@);
                }
            },
            None => {},
        }
        inst.stats.subscriber_count = inst.subscribers.len();
        self.instances.insert(k, inst);
        proof {
            assert(self.instances@ =~= mid.update(k as int, inst));
            lemma_replace_instance(mid, k as int, inst, self.ids);
            lemma_replace_rx(mid, k as int, inst, keep_limit(self.limits));
            lemma_totals_nonneg(self.instances@);
            lemma_queued_nonneg(before);
            lemma_all_payload_nonneg(inst.subscribers@);
            if existing is Some {
                let j = existing->0 as int;
                lemma_release_within(
                    old_q as int,
                    total_queued(mid),
                    payload_total(before.subscribers@[j].1.queue@),
                    released as int,
                );
            }
        }
        self.queued_bytes_budget = self.queued_bytes_budget.saturating_sub(released);
        Ok(UnsubscribeResult { was_subscribed: existing.is_some() })
    }

    /// Takes every queued notification of `session_id`, oldest first,
    /// returning their bytes to the queued budget.
    pub fn pull_subscription_mock(&mut self, handle_id: &HandleId, session_id: &str) -> (r: Result<
        Vec<Notification>,
        DomainError,
    >)
        requires
            old(self).wf(),
        ensures
            final(self).wf(),
            final(self).same_but_instances(old(self)),
            final(self).buffer_budget() == old(self).buffer_budget(),
            match r {
                Ok(ns) => {
                    let k = slot_of(old(self).instances(), handle_id@);
                    let inst = old(self).instances()[k];
                    let j = session_slot(inst.subscribers@, session_id@);
                    let subs = final(self).instances()[k].subscribers@;
                    &&& has_handle(old(self).instances(), handle_id@)
                    &&& has_session(inst.subscribers@, session_id@)
                    &&& ns@ == inst.subscribers@[j].1.queue@
                    &&& only_changed(old(self).instances(), final(self).instances(), k)
                    &&& same_identity(final(self).instances()[k], inst)
                    &&& final(self).instances()[k].tx_queue == inst.tx_queue
                    &&& final(self).instances()[k].rx_buffer == inst.rx_buffer
                    &&& subs.len() == inst.subscribers@.len()
                    &&& subs[j].1.queue@.len() == 0
                    &&& forall|x: int| 0 <= x < subs.len() && x != j ==> #[trigger] subs[x] == inst.subscribers@[x]
                    &&& final(self).queued_budget() == sat_sub(
                        old(self).queued_budget(),
                        crate::runtime::subscriptions::sat_usize(
                            payload_total(inst.subscribers@[j].1.queue@),
                        ),
                    )
                },
                Err(e) => {
                    &&& *final(self) == *old(self)
                    &&& if !has_handle(old(self).instances(), handle_id@) {
                        old(self).missing_error(handle_id@, e)
                    } else {
                        &&& !has_session(old(self).instance_of(handle_id@).subscribers@, session_id@)
                        &&& e.category == ErrorCategory::HandleNotFound
                        &&& e.code == ErrorCode::HandleNotFound
                    }
                },
            },
    {
        let k = match self.find(handle_id) {
            Some(k) => k,
            None => return Err(self.missing_handle_error(handle_id)),
        };
        let ghost mid = self.instances@;
        let ghost old_q = self.queued_bytes_budget;
        assert(instance_wf(mid[k as int]));
        let j = match find_subscriber(&self.instances[k].subscribers, session_id) {
            Some(j) => j,
            None => {
                return Err(
                    DomainError::new(
                        ErrorCategory::HandleNotFound,
                        ErrorCode::HandleNotFound,
                        "Subscriber does not exist for this instance.",
                        "Subscribe before pulling mock notifications.",
                        false,
                    ),
                );
            },
        };
        let mut inst = self.instances.remove(k);
        let ghost before = inst;
        let (name, mut sub) = inst.subscribers.remove(j);
        let ghost old_sub = sub;
        let released = sub.queued_bytes();
        let mut notifications: Vec<Notification> = Vec::new();
        while sub.queue.len() > 0
            invariant
                notifications@ + sub.queue@ == old_sub.queue@,
                sub.max_payload_bytes == old_sub.max_payload_bytes,
                sub.dropped_notifications == old_sub.dropped_notifications,
                sub.dropped_bytes == old_sub.dropped_bytes,
                sub.notification_tick == old_sub.notification_tick,
                sub.notifications_this_tick == old_sub.notifications_this_tick,
            decreases sub.queue@.len(),
        {
            let ghost prev_n = notifications@;
            let ghost prev_q = sub.queue@;
            match sub.queue.pop_front() {
                Some(n) => {
                    notifications.push(n);
                    proof {
                        assert(notifications@ + sub.queue@ =~= prev_n + prev_q);
                    }
                },
                None => {},
            }
        }
        assert(notifications@ =~= old_sub.queue@);
        inst.subscribers.insert(j, (name, sub));
        proof {
            let subs = inst.subscribers@;
            assert(subs =~= before.subscribers@.update(j as int, subs[j as int]));
            assert(payload_total(subs[j as int].1.queue@) == 0);
            lemma_sum_update(
                before.subscribers@,
                j as int,
                subs[j as int],
                |p: (String, Subscriber)| payload_total(p.1.queue@),
            );
            assert forall|a: int, b: int| 0 <= a < b < subs.len() implies #[trigger] subs[a].0@
                != #[trigger] subs[b].0@ by {
                assert(subs[a].0 == before.subscribers@[a].0 && subs[b].0 == before.subscribers@[b].0);
            }
        }
        self.instances.insert(k, inst);
        proof {
            assert(self.instances@ =~= mid.update(k as int, inst));
            lemma_replace_instance(mid, k as int, inst, self.ids);
            lemma_replace_rx(mid, k as int, inst, keep_limit(self.limits));
            lemma_totals_nonneg(self.instances@);
            lemma_queued_nonneg(before);
            crate::runtime::subscriptions::lemma_payload_total_nonneg(old_sub.queue@);
            lemma_release_within(
                old_q as int,
                total_queued(mid),
                payload_total(old_sub.queue@),
                released as int,
            );
        }
        self.queued_bytes_budget = self.queued_bytes_budget.saturating_sub(released);
        Ok(notifications)
    }
}

/// The receive buffer after `bytes` arrive: the newest `keep` bytes of the
/// old contents followed by `bytes`.
pub open spec fn appended_rx(old_rx: Seq<u8>, bytes: Seq<u8>, keep: int) -> Seq<u8> {
    let all = old_rx + bytes;
    if all.len() > keep {
        all.skip(all.len() - keep)
    } else {
        all
    }
}

impl RuntimeRegistry {
    fn append_rx_buffer(&mut self, k: usize, bytes: &[u8])
        requires
            old(self).wf(),
            k < old(self).instances().len(),
        ensures
            final(self).wf(),
            final(self).same_but_instances(old(self)),
            final(self).queued_budget() == old(self).queued_budget(),
            only_changed(old(self).instances(), final(self).instances(), k as int),
            ({
                let inst = old(self).instances()[k as int];
                let new_i = final(self).instances()[k as int];
                let keep = keep_limit(old(self).limits());
                let all = inst.rx_buffer@.len() + bytes@.len();
                let dropped = if all > keep { all - keep } else { 0 };
                &&& same_identity(new_i, inst)
                &&& new_i.tx_queue == inst.tx_queue
                &&& new_i.subscribers == inst.subscribers
                &&& new_i.notification_tick == inst.notification_tick
                &&& new_i.notifications_this_tick == inst.notifications_this_tick
                &&& new_i.rx_buffer@ == appended_rx(inst.rx_buffer@, bytes@, keep)
                &&& new_i.stats == InstanceStats {
                    rx_bytes: sat_add_u64(inst.stats.rx_bytes as int, bytes@.len() as int) as u64,
                    rx_dropped_bytes: sat_add_u64(inst.stats.rx_dropped_bytes as int, dropped) as u64,
                    rx_buffer_bytes: new_i.rx_buffer@.len() as usize,
                    ..inst.stats
                }
                &&& final(self).buffer_budget() == crate::runtime::subscriptions::sat_usize(
                    old(self).buffer_budget() + new_i.rx_buffer@.len() - inst.rx_buffer@.len(),
                )
            }),
    {
        let keep = if self.limits.rx_buffer_max_bytes < self.limits.max_total_buffer_bytes {
            self.limits.rx_buffer_max_bytes
        } else {
            self.limits.max_total_buffer_bytes
        };
        let ghost mid = self.instances@;
        let ghost old_b = self.buffer_bytes_budget;
        assert(instance_wf(mid[k as int]));
        assert(mid[k as int].rx_buffer@.len() <= keep);
        let mut inst = self.instances.remove(k);
        let ghost before = inst;
        let before_len = inst.rx_buffer.len();
        let mut i: usize = 0;
        while i < bytes.len()
            invariant
                i <= bytes@.len(),
                inst.rx_buffer@ == before.rx_buffer@ + bytes@.take(i as int),
                same_identity(inst, before),
                inst.tx_queue == before.tx_queue,
                inst.subscribers == before.subscribers,
                inst.stats == before.stats,
                inst.notification_tick == before.notification_tick,
                inst.notifications_this_tick == before.notifications_this_tick,
            decreases bytes@.len() - i,
        {
            inst.rx_buffer.push_back(bytes[i]);
            assert(before.rx_buffer@ + bytes@.take(i + 1) =~= (before.rx_buffer@ + bytes@.take(
                i as int,
            )).push(bytes@[i as int]));
            i = i + 1;
        }
        assert(bytes@.take(bytes@.len() as int) =~= bytes@);
        let ghost all = before.rx_buffer@ + bytes@;
        let total_len = inst.rx_buffer.len();
        let mut dropped: usize = 0;
        while inst.rx_buffer.len() > keep
            invariant
                all.len() == total_len,
                inst.rx_buffer@ == all.skip(dropped as int),
                dropped <= all.len(),
                all.len() > keep ==> dropped <= all.len() - keep,
                all.len() <= keep ==> dropped == 0,
                same_identity(inst, before),
                inst.tx_queue == before.tx_queue,
                inst.subscribers == before.subscribers,
                inst.stats == before.stats,
                inst.notification_tick == before.notification_tick,
                inst.notifications_this_tick == before.notifications_this_tick,
            decreases inst.rx_buffer@.len(),
        {
            inst.rx_buffer.pop_front();
            assert(inst.rx_buffer@ =~= all.skip(dropped + 1));
            dropped = dropped + 1;
        }
        let after = inst.rx_buffer.len();
        inst.stats.rx_bytes = inst.stats.rx_bytes.saturating_add(bytes.len() as u64);
        inst.stats.rx_dropped_bytes = inst.stats.rx_dropped_bytes.saturating_add(dropped as u64);
        inst.stats.rx_buffer_bytes = after;
        self.instances.insert(k, inst);
        proof {
            assert(inst.rx_buffer@ =~= appended_rx(before.rx_buffer@, bytes@, keep as int));
            assert(self.instances@ =~= mid.update(k as int, inst));
            lemma_replace_instance(mid, k as int, inst, self.ids);
            lemma_replace_rx(mid, k as int, inst, keep_limit(self.limits));
            lemma_totals_nonneg(self.instances@);
        }
        let delta = after - before_len;
        self.buffer_bytes_budget = self.buffer_bytes_budget.saturating_add(delta);
    }
}

/// What a broadcast leaves in each subscriber of `old_s`: the same session
/// and cap, and a queue ending with the first `cap` bytes of `bytes`.
pub open spec fn delivered(old_s: Seq<(String, Subscriber)>, new_s: Seq<(String, Subscriber)>, bytes: Seq<u8>) -> bool {
    &&& new_s.len() == old_s.len()
    &&& forall|j: int| 0 <= j < old_s.len() ==> #[trigger] delivered_one(old_s[j], new_s[j], bytes)
}

/// One subscriber after a broadcast of `bytes`.
pub open spec fn delivered_one(old_s: (String, Subscriber), new_s: (String, Subscriber), bytes: Seq<u8>) -> bool {
    let cap = old_s.1.max_payload_bytes;
    let pl = if bytes.len() < cap {
        bytes.len() as int
    } else {
        cap as int
    };
    &&& new_s.0 == old_s.0
    &&& new_s.1.max_payload_bytes == cap
    &&& new_s.1.queue@.len() > 0
    &&& new_s.1.queue@.last().payload@ == bytes.take(pl)
}

proof fn lemma_payload_total_single(q: Seq<Notification>)
    requires
        q.len() == 1,
    ensures
        payload_total(q) == q[0].payload@.len(),
{
    assert(q.drop_last() =~= Seq::<Notification>::empty());
    assert(payload_total(q.drop_last()) == 0);
    assert(q.last() == q[0]);
}

proof fn lemma_payload_total_push(q: Seq<Notification>, n: Notification)
    ensures
        payload_total(q.push(n)) == payload_total(q) + n.payload@.len(),
{
    assert(q.push(n).drop_last() =~= q);
}

/// The queued budget after a broadcast stays within what is queued.
proof fn lemma_broadcast_budget(b: int, total: int, s_old: int, s_new: int, rt: int, qt: int, rel: int, q: int)
    requires
        0 <= b <= total,
        b <= usize::MAX,
        0 <= s_old <= total,
        s_new >= qt,
        rt >= 0,
        qt >= 0,
        rel == crate::runtime::subscriptions::sat_usize(rt),
        q == crate::runtime::subscriptions::sat_usize(qt),
        rt < usize::MAX ==> s_new == s_old - rt + qt,
        total - s_old >= 0,
    ensures
        sat_sub(b, rel) <= total - s_old + s_new,
        sat_sub(b, rel) + q <= total - s_old + s_new,
{
}

impl RuntimeRegistry {
    fn broadcast_mock(&mut self, k: usize, bytes: &[u8], tick: u64) -> (r: Result<(), DomainError>)
        requires
            old(self).wf(),
            k < old(self).instances().len(),
        ensures
            final(self).wf(),
            final(self).released() == old(self).released(),
            final(self).bindings() == old(self).bindings(),
            final(self).locks() == old(self).locks(),
            final(self).limits() == old(self).limits(),
            final(self).ids() == old(self).ids(),
            final(self).buffer_budget() == old(self).buffer_budget(),
            final(self).global_window().0 == Some(tick),
            only_changed(old(self).instances(), final(self).instances(), k as int),
            ({
                let inst = old(self).instances()[k as int];
                let new_i = final(self).instances()[k as int];
                &&& same_identity(new_i, inst)
                &&& new_i.tx_queue == inst.tx_queue
                &&& new_i.rx_buffer == inst.rx_buffer
                &&& new_i.stats == InstanceStats {
                    dropped_notifications: new_i.stats.dropped_notifications,
                    ..inst.stats
                }
                &&& new_i.notification_tick == Some(tick)
                &&& delivered(inst.subscribers@, new_i.subscribers@, bytes@)
            }),
            r matches Err(e) ==> e.category == ErrorCategory::BufferLimitExceeded && e.code
                == ErrorCode::TxQueueFull,
    {
        let same_tick = match self.global_notification_tick {
            Some(t) => t == tick,
            None => false,
        };
        if !same_tick {
            self.global_notification_tick = Some(tick);
            self.global_notifications_this_tick = 0;
        }
        let subscriber_limit = self.limits.subscriber_notifications_per_sec;
        let instance_limit = self.limits.instance_notifications_per_sec;
        let global_limit = self.limits.global_notifications_per_sec;
        let queue_limit = self.limits.subscriber_queue_max_items;
        let mut global = self.global_notifications_this_tick;
        let ghost mid = self.instances@;
        let ghost old_b = self.queued_bytes_budget;
        assert(instance_wf(mid[k as int]));
        let mut inst = self.instances.remove(k);
        let ghost before = inst;
        let inst_same_tick = match inst.notification_tick {
            Some(t) => t == tick,
            None => false,
        };
        if !inst_same_tick {
            inst.notification_tick = Some(tick);
            inst.notifications_this_tick = 0;
        }
        let ghost s_old = inst.subscribers@;
        let mut queued_delta: usize = 0;
        let mut released_delta: usize = 0;
        let mut dropped_total: u64 = 0;
        let ghost mut qt: int = 0;
        let ghost mut rt: int = 0;
        proof {
            lemma_all_payload_nonneg(s_old);
            assert(s_old.skip(0) =~= s_old);
        }
        let mut i: usize = 0;
        while i < inst.subscribers.len()
            invariant
                i <= s_old.len(),
                inst.subscribers@.len() == s_old.len(),
                forall|j: int| i <= j < s_old.len() ==> #[trigger] inst.subscribers@[j] == s_old[j],
                forall|j: int|
                    0 <= j < i ==> #[trigger] delivered_one(s_old[j], inst.subscribers@[j], bytes@),
                queued_delta == crate::runtime::subscriptions::sat_usize(qt),
                released_delta == crate::runtime::subscriptions::sat_usize(rt),
                qt >= 0,
                rt >= 0,
                subs_total(inst.subscribers@) >= qt + subs_total(s_old.skip(i as int)),
                subs_total(s_old.skip(i as int)) >= 0,
                rt < usize::MAX ==> subs_total(inst.subscribers@) == subs_total(s_old) - rt + qt,
                subs_total(s_old) >= 0,
                same_identity(inst, before),
                inst.tx_queue == before.tx_queue,
                inst.rx_buffer == before.rx_buffer,
                inst.stats == before.stats,
                inst.notification_tick == Some(tick),
                forall|a: int, b: int|
                    0 <= a < b < s_old.len() ==> #[trigger] s_old[a].0@ != #[trigger] s_old[b].0@,
            decreases s_old.len() - i,
        {
            let ghost cur = inst.subscribers@;
            let (name, mut sub) = inst.subscribers.remove(i);
            let ghost old_sub = sub;
            let sub_limited = sub.note_tick(tick, subscriber_limit);
            let rate_limited = sub_limited || inst.notifications_this_tick >= instance_limit || global
                >= global_limit;
            let ghost noted = sub;
            let (q, rel, drop) = sub.enqueue(bytes, queue_limit, rate_limited);
            proof {
                let old_t = payload_total(old_sub.queue@);
                let new_t = payload_total(sub.queue@);
                crate::runtime::subscriptions::lemma_payload_total_nonneg(old_sub.queue@);
                if rate_limited {
                    lemma_payload_total_single(sub.queue@);
                } else {
                    let qq = noted.queue@;
                    let drop_first = qq.len() >= queue_limit && qq.len() > 0;
                    let kept = if drop_first { qq.drop_first() } else { qq };
                    assert(sub.queue@ =~= kept.push(sub.queue@.last()));
                    lemma_payload_total_push(kept, sub.queue@.last());
                    if drop_first {
                        crate::runtime::subscriptions::lemma_payload_total_drop_first(qq);
                    }
                    crate::runtime::subscriptions::lemma_payload_total_nonneg(kept);
                }
                assert(new_t >= q);
                assert(rel < usize::MAX ==> new_t == old_t - rel + q);
                assert(rel <= old_t);
                assert(sub.max_payload_bytes == s_old[i as int].1.max_payload_bytes);
                assert(sub.queue@.len() > 0);
                if rate_limited {
                    assert(sub.queue@.last() == sub.queue@[0]);
                }
                let skip_i = s_old.skip(i as int);
                lemma_sum_drop_first(skip_i, |p: (String, Subscriber)| payload_total(p.1.queue@));
                assert(skip_i.drop_first() =~= s_old.skip(i + 1));
                assert(skip_i[0] == s_old[i as int]);
                lemma_all_payload_nonneg(s_old.skip(i + 1));
            }
            queued_delta = queued_delta.saturating_add(q);
            released_delta = released_delta.saturating_add(rel);
            dropped_total = dropped_total.saturating_add(drop);
            if !rate_limited {
                inst.notifications_this_tick = inst.notifications_this_tick.saturating_add(1);
                global = global.saturating_add(1);
            }
            inst.subscribers.insert(i, (name, sub));
            proof {
                let nxt = inst.subscribers@;
                assert(nxt =~= cur.update(i as int, (name, sub)));
                assert(cur[i as int] == s_old[i as int]);
                assert(name == s_old[i as int].0);
                assert(nxt[i as int] == (name, sub));
                assert(delivered_one(s_old[i as int], nxt[i as int], bytes@));
                assert forall|j: int| 0 <= j < s_old.len() && j != i implies #[trigger] nxt[j] == cur[j] by {}
                lemma_sum_update(
                    cur,
                    i as int,
                    (name, sub),
                    |p: (String, Subscriber)| payload_total(p.1.queue@),
                );
                crate::runtime::subscriptions::lemma_payload_total_nonneg(sub.queue@);
                qt = qt + q;
                rt = rt + rel;
            }
            i = i + 1;
        }
        inst.stats.dropped_notifications = inst.stats.dropped_notifications.saturating_add(
            dropped_total,
        );
        self.global_notifications_this_tick = global;
        proof {
            assert forall|a: int, b: int|
                0 <= a < b < inst.subscribers@.len() implies #[trigger] inst.subscribers@[a].0@
                != #[trigger] inst.subscribers@[b].0@ by {
                assert(delivered_one(s_old[a], inst.subscribers@[a], bytes@));
                assert(delivered_one(s_old[b], inst.subscribers@[b], bytes@));
            }
            assert(delivered(s_old, inst.subscribers@, bytes@));
        }
        self.instances.insert(k, inst);
        proof {
            assert(self.instances@ =~= mid.update(k as int, inst));
            lemma_replace_instance(mid, k as int, inst, self.ids);
            lemma_replace_rx(mid, k as int, inst, keep_limit(self.limits));
            lemma_sum_update(mid, k as int, inst, |i: RuntimeInstance| queued_of(i));
            lemma_totals_nonneg(mid.remove(k as int));
            lemma_remove_instance(mid, k as int, self.ids);
            lemma_queued_nonneg(before);
            lemma_broadcast_budget(
                old_b as int,
                total_queued(mid),
                subs_total(s_old),
                subs_total(inst.subscribers@),
                rt,
                qt,
                released_delta as int,
                queued_delta as int,
            );
        }
        self.queued_bytes_budget = self.queued_bytes_budget.saturating_sub(released_delta);
        if queued_delta > 0 {
            let requested = self.queued_bytes_budget.saturating_add(queued_delta);
            if requested > self.limits.max_total_queued_bytes {
                return Err(
                    budget_exceeded(
                        ErrorCode::TxQueueFull,
                        "Queued bytes budget would be exceeded.",
                        "Reduce payload size, pull or clear buffered data, then retry.",
                        true,
                        self.limits.max_total_queued_bytes,
                        requested,
                    ),
                );
            }
            self.queued_bytes_budget = requested;
        }
        Ok(())
    }
}

impl RuntimeRegistry {
    /// Delivers a received chunk to a connected instance: the receive buffer
    /// keeps the newest bytes within its limit, every subscriber gets a
    /// notification (coalesced under the rate limits), and the queued bytes
    /// are charged to the budget; a budget overflow is reported after the
    /// chunk is delivered.
    pub fn receive_mock_chunk(&mut self, handle_id: &HandleId, bytes: &[u8], tick: u64) -> (r: Result<
        (),
        DomainError,
    >)
        requires
            old(self).wf(),
        ensures
            final(self).wf(),
            if !has_handle(old(self).instances(), handle_id@) {
                r matches Err(e) && old(self).missing_error(handle_id@, e) && *final(self) == *old(self)
            } else if old(self).instance_of(handle_id@).state != InstanceState::Connected {
                r matches Err(e) && state_error(
                    e,
                    "receive_mock_chunk"@,
                    old(self).instance_of(handle_id@).state,
                    seq![InstanceState::Connected],
                ) && *final(self) == *old(self)
            } else {
                let k = slot_of(old(self).instances(), handle_id@);
                let inst = old(self).instances()[k];
                let new_i = final(self).instances()[k];
                let keep = keep_limit(old(self).limits());
                let all = inst.rx_buffer@.len() + bytes@.len();
                &&& only_changed(old(self).instances(), final(self).instances(), k)
                &&& same_identity(new_i, inst)
                &&& new_i.tx_queue == inst.tx_queue
                &&& new_i.rx_buffer@ == appended_rx(inst.rx_buffer@, bytes@, keep)
                &&& new_i.stats.rx_bytes == sat_add_u64(inst.stats.rx_bytes as int, bytes@.len() as int)
                &&& new_i.stats.rx_dropped_bytes == sat_add_u64(
                    inst.stats.rx_dropped_bytes as int,
                    if all > keep { all - keep } else { 0 },
                )
                &&& new_i.stats.rx_buffer_bytes == new_i.rx_buffer@.len()
                &&& delivered(inst.subscribers@, new_i.subscribers@, bytes@)
                &&& final(self).buffer_budget() == crate::runtime::subscriptions::sat_usize(
                    old(self).buffer_budget() + new_i.rx_buffer@.len() - inst.rx_buffer@.len(),
                )
                &&& final(self).released() == old(self).released()
                &&& final(self).bindings() == old(self).bindings()
                &&& final(self).locks() == old(self).locks()
                &&& final(self).limits() == old(self).limits()
                &&& (r matches Err(e) ==> e.category == ErrorCategory::BufferLimitExceeded && e.code
                    == ErrorCode::TxQueueFull)
            },
    {
        match self.ensure_connected(handle_id, "receive_mock_chunk") {
            Ok(()) => {},
            Err(e) => return Err(e),
        }
        let k = match self.find(handle_id) {
            Some(k) => k,
            None => return Err(self.missing_handle_error(handle_id)),
        };
        self.append_rx_buffer(k, bytes);
        self.broadcast_mock(k, bytes, tick)
    }

    /// Counts bytes written directly by a transport at time `at`.
    pub fn record_direct_tx(&mut self, handle_id: &HandleId, bytes: usize, at: Timestamp) -> (r: Result<
        (),
        DomainError,
    >)
        requires
            old(self).wf(),
        ensures
            final(self).wf(),
            final(self).same_but_instances(old(self)),
            final(self).queued_budget() == old(self).queued_budget(),
            final(self).buffer_budget() == old(self).buffer_budget(),
            if !has_handle(old(self).instances(), handle_id@) {
                r matches Err(e) && old(self).missing_error(handle_id@, e) && *final(self) == *old(self)
            } else {
                let k = slot_of(old(self).instances(), handle_id@);
                let inst = old(self).instances()[k];
                &&& r is Ok
                &&& final(self).instances() == old(self).instances().update(
                    k,
                    RuntimeInstance {
                        stats: InstanceStats {
                            tx_bytes: sat_add_u64(inst.stats.tx_bytes as int, bytes as int) as u64,
                            tx_queue_items: inst.tx_queue@.len() as usize,
                            last_activity_at: Some(at),
                            ..inst.stats
                        },
                        ..inst
                    },
                )
            },
    {
        let k = match self.find(handle_id) {
            Some(k) => k,
            None => return Err(self.missing_handle_error(handle_id)),
        };
        let ghost mid = self.instances@;
        assert(instance_wf(mid[k as int]));
        let mut inst = self.instances.remove(k);
        inst.stats.tx_bytes = inst.stats.tx_bytes.saturating_add(bytes as u64);
        inst.stats.tx_queue_items = inst.tx_queue.len();
        inst.stats.last_activity_at = Some(at);
        self.instances.insert(k, inst);
        proof {
            assert(self.instances@ =~= mid.update(k as int, inst));
            lemma_replace_instance(mid, k as int, inst, self.ids);
            lemma_replace_rx(mid, k as int, inst, keep_limit(self.limits));
        }
        Ok(())
    }

    /// Counts bytes read directly by a transport at time `at`.
    pub fn record_direct_rx(&mut self, handle_id: &HandleId, bytes: usize, at: Timestamp) -> (r: Result<
        (),
        DomainError,
    >)
        requires
            old(self).wf(),
        ensures
            final(self).wf(),
            final(self).same_but_instances(old(self)),
            final(self).queued_budget() == old(self).queued_budget(),
            final(self).buffer_budget() == old(self).buffer_budget(),
            if !has_handle(old(self).instances(), handle_id@) {
                r matches Err(e) && old(self).missing_error(handle_id@, e) && *final(self) == *old(self)
            } else {
                let k = slot_of(old(self).instances(), handle_id@);
                let inst = old(self).instances()[k];
                &&& r is Ok
                &&& final(self).instances() == old(self).instances().update(
                    k,
                    RuntimeInstance {
                        stats: InstanceStats {
                            rx_bytes: sat_add_u64(inst.stats.rx_bytes as int, bytes as int) as u64,
                            last_activity_at: Some(at),
                            ..inst.stats
                        },
                        ..inst
                    },
                )
            },
    {
        let k = match self.find(handle_id) {
            Some(k) => k,
            None => return Err(self.missing_handle_error(handle_id)),
        };
        let ghost mid = self.instances@;
        assert(instance_wf(mid[k as int]));
        let mut inst = self.instances.remove(k);
        inst.stats.rx_bytes = inst.stats.rx_bytes.saturating_add(bytes as u64);
        inst.stats.last_activity_at = Some(at);
        self.instances.insert(k, inst);
        proof {
            assert(self.instances@ =~= mid.update(k as int, inst));
            lemma_replace_instance(mid, k as int, inst, self.ids);
            lemma_replace_rx(mid, k as int, inst, keep_limit(self.limits));
        }
        Ok(())
    }
}

/// A released handle no longer names an instance, and looking it up reports
/// it as released.
pub proof fn law_release_then_lookup_reports_released(
    before: RuntimeRegistry,
    after: RuntimeRegistry,
    h: Seq<char>,
    force: bool,
    r: Result<InstanceSummary, DomainError>,
)
    requires
        before.wf(),
        release_result(before, after, h, force, r),
        r is Ok,
    ensures
        !has_handle(after.instances(), h),
        after.missing_code(h) == ErrorCode::HandleReleased,
{
    let k = slot_of(before.instances(), h);
    lemma_remove_instance(before.instances@, k, before.ids);
    if !before.released().contains(h) {
        assert(after.released()[after.released().len() - 1] == h);
    }
}

/// Instance handles are unique.
pub proof fn law_handles_unique(r: RuntimeRegistry)
    requires
        r.wf(),
    ensures
        forall|a: int, b: int|
            0 <= a < b < r.instances().len() ==> #[trigger] r.instances()[a].handle_id@
                != #[trigger] r.instances()[b].handle_id@,
{
}

/// A resource key is locked at most once.
pub proof fn law_lock_keys_unique(r: RuntimeRegistry)
    requires
        r.wf(),
    ensures
        forall|a: int, b: int|
            0 <= a < b < r.locks().len() ==> #[trigger] r.locks()[a].0 != #[trigger] r.locks()[b].0,
{
}

/// Once a lock is taken, the key is held by its taker, so every further
/// attempt on it is refused until the lock is released or closed.
pub proof fn law_acquired_lock_is_held(
    before: RuntimeRegistry,
    after: RuntimeRegistry,
    key: Seq<char>,
    owner: Seq<char>,
)
    requires
        after.wf(),
        lock_of(before.locks(), key) is None,
        after.locks().len() == before.locks().len() + 1,
        after.locks().drop_last() == before.locks(),
        after.locks().last().0 == key,
        after.locks().last().1.owner_handle_id@ == owner,
        after.locks().last().1.state == ResourceLockState::Held,
    ensures
        lock_of(after.locks(), key) matches Some(e) && e.owner_handle_id@ == owner && e.state
            == ResourceLockState::Held,
{
    let ls = after.locks();
    let n = ls.len() - 1;
    assert(ls[n].0 == key);
    let c = choose|j: int| 0 <= j < ls.len() && #[trigger] ls[j].0 == key;
    if c != n {
        assert(ls[c].0 != ls[n].0);
    }
}

/// The queued budget never exceeds its limit.
pub proof fn law_queued_budget_within_limit(r: RuntimeRegistry)
    requires
        r.wf(),
    ensures
        r.queued_budget() <= r.limits().max_total_queued_bytes,
{
}

/// No receive buffer ever holds more than the per-instance buffer limit,
/// nor more than the service-wide buffer limit.
pub proof fn law_receive_buffers_within_limits(r: RuntimeRegistry)
    requires
        r.wf(),
    ensures
        forall|a: int|
            0 <= a < r.instances().len() ==> {
                &&& (#[trigger] r.instances()[a]).rx_buffer@.len() <= r.limits().rx_buffer_max_bytes
                &&& r.instances()[a].rx_buffer@.len() <= r.limits().max_total_buffer_bytes
            },
{
    assert forall|a: int| 0 <= a < r.instances().len() implies {
        &&& (#[trigger] r.instances()[a]).rx_buffer@.len() <= r.limits().rx_buffer_max_bytes
        &&& r.instances()[a].rx_buffer@.len() <= r.limits().max_total_buffer_bytes
    } by {
        assert(r.instances()[a].rx_buffer@.len() <= keep_limit(r.limits()));
    }
}

/// When no instance holds queued or received bytes, both budgets are zero:
/// clearing and releasing give every reserved byte back.
pub proof fn law_budgets_return_to_zero(r: RuntimeRegistry)
    requires
        r.wf(),
        forall|a: int| 0 <= a < r.instances().len() ==> #[trigger] queued_of(r.instances()[a]) == 0,
        forall|a: int| 0 <= a < r.instances().len() ==> #[trigger] rx_of(r.instances()[a]) == 0,
    ensures
        r.queued_budget() == 0,
        r.buffer_budget() == 0,
{
    let s = r.instances@;
    assert forall|a: int| 0 <= a < s.len() implies (|i: RuntimeInstance| queued_of(i))(#[trigger] s[a]) == 0 by {
        assert(queued_of(r.instances()[a]) == 0);
    }
    assert forall|a: int| 0 <= a < s.len() implies (|i: RuntimeInstance| rx_of(i))(#[trigger] s[a]) == 0 by {
        assert(rx_of(r.instances()[a]) == 0);
    }
    lemma_sum_zero(s, |i: RuntimeInstance| queued_of(i));
    lemma_sum_zero(s, |i: RuntimeInstance| rx_of(i));
}

proof fn lemma_sum_zero<A>(s: Seq<A>, f: spec_fn(A) -> int)
    requires
        forall|a: int| 0 <= a < s.len() ==> f(#[trigger] s[a]) == 0,
    ensures
        sum_of(s, f) == 0,
    decreases s.len(),
{
    if s.len() > 0 {
        lemma_sum_zero(s.drop_last(), f);
    }
}

/// Received bytes are kept in arrival order and bounded by the keep limit:
/// nothing is lost while the buffer has room, and otherwise the newest
/// bytes are the ones kept.
pub proof fn law_receive_buffer_keeps_newest(old_rx: Seq<u8>, bytes: Seq<u8>, keep: int)
    requires
        0 <= old_rx.len() <= keep,
    ensures
        appended_rx(old_rx, bytes, keep).len() <= keep,
        old_rx.len() + bytes.len() <= keep ==> appended_rx(old_rx, bytes, keep) == old_rx + bytes,
        bytes.len() <= keep ==> appended_rx(old_rx, bytes, keep).skip(
            appended_rx(old_rx, bytes, keep).len() - bytes.len(),
        ) == bytes,
{
    let all = old_rx + bytes;
    if all.len() > keep && bytes.len() <= keep {
        let a = appended_rx(old_rx, bytes, keep);
        assert(a.skip(a.len() - bytes.len()) =~= bytes);
    }
    if bytes.len() <= keep && all.len() <= keep {
        assert(all.skip(all.len() - bytes.len()) =~= bytes);
    }
}

/// A pull hands back the oldest buffered bytes and leaves the rest in
/// order: what was pulled followed by what remains is what was buffered.
pub proof fn law_pull_is_fifo(rx: Seq<u8>, take: int)
    requires
        0 <= take <= rx.len(),
    ensures
        rx.take(take) + rx.skip(take) == rx,
{
    assert(rx.take(take) + rx.skip(take) =~= rx);
}

/// What arrives is what a pull gives back: after a chunk is received into a
/// buffer with room for it, a pull allowed at least the buffered length
/// returns the earlier bytes followed by the chunk, and leaves the buffer
/// empty.
pub proof fn law_pull_returns_received(old_rx: Seq<u8>, bytes: Seq<u8>, keep: int, max: int)
    requires
        old_rx.len() + bytes.len() <= keep,
        max >= old_rx.len() + bytes.len(),
    ensures
        ({
            let buffered = appended_rx(old_rx, bytes, keep);
            let take = if max < buffered.len() { max } else { buffered.len() as int };
            &&& buffered.take(take) == old_rx + bytes
            &&& buffered.skip(take).len() == 0
        }),
{
    let buffered = appended_rx(old_rx, bytes, keep);
    assert(buffered == old_rx + bytes);
    assert(buffered.take(buffered.len() as int) =~= old_rx + bytes);
}

/// After an unsubscribe the session has no subscription left, so a second
/// unsubscribe reports that it was not subscribed.
pub proof fn law_unsubscribe_is_idempotent(subs: Seq<(String, Subscriber)>, session: Seq<char>)
    requires
        forall|a: int, b: int|
            0 <= a < b < subs.len() ==> #[trigger] subs[a].0@ != #[trigger] subs[b].0@,
        has_session(subs, session),
    ensures
        !has_session(subs.remove(session_slot(subs, session)), session),
{
    let j = session_slot(subs, session);
    let t = subs.remove(j);
    if has_session(t, session) {
        let x = choose|x: int| 0 <= x < t.len() && #[trigger] t[x].0@ == session;
        let x2 = if x < j { x } else { x + 1 };
        assert(t[x] == subs[x2]);
        if x2 < j {
            assert(subs[x2].0@ != subs[j].0@);
        } else {
            assert(subs[j].0@ != subs[x2].0@);
        }
    }
}

} // verus!
