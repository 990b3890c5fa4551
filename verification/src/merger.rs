//! Merger bookkeeping: per-source sequence tracking, batch counters, the
//! backlog gauge of the receiver-to-sender channel, and the decisions the
//! receiver and sender loops take for every frame.
//!
//! The merger forwards raw frames from several upstream sources to one
//! downstream publisher. Only the header is parsed. Data arriving while
//! the merger is not Running is discarded (counted, never silently), except
//! EndOfStream markers, which always go through because downstream
//! consumers finalize their runs on them.

use vstd::prelude::*;
use vstd::string::*;
use std::collections::HashMap;
use dashmap::DashMap;
use crate::command::{EmulatorRuntimeConfig, RunConfig};
use crate::header::{spec_parse, MessageHeader};
use crate::queue_accounting::{spec_backlog_level, backlog_level, QueueAccounting, QueueOp, queue_step, wrap_add, max_u64};
use crate::state::CommandHandlerExt;
use crate::map_totals::{add_measure, lemma_iteration_lists, lemma_total_order_independent, lemma_wrap_step, map_total};
use crate::text::{decimal, u64_to_decimal};
use vstd::std_specs::iter::IteratorSpec;

verus! {

broadcast use vstd::std_specs::hash::group_hash_axioms;

/// Merger configuration
#[derive(Debug, Clone)]
pub struct MergerConfig {
    /// ZMQ addresses to subscribe to (upstream sources)
    pub sub_addresses: Vec<String>,
    /// ZMQ address to publish to (downstream)
    pub pub_address: String,
    /// ZMQ bind address for commands (e.g., "tcp://*:5570")
    pub command_address: String,
    /// Soft backlog watermark in bytes (0 = disabled)
    pub backlog_soft_limit_bytes: u64,
    /// Hard backlog watermark in bytes (0 = disabled)
    pub backlog_hard_limit_bytes: u64,
}

impl Default for MergerConfig {
    fn default() -> (r: MergerConfig)
        ensures
            r.sub_addresses@.len() == 1,
            r.sub_addresses@[0]@ == "tcp://localhost:5555"@,
            r.pub_address@ == "tcp://*:5556"@,
            r.command_address@ == "tcp://*:5570"@,
            r.backlog_soft_limit_bytes == 4096 * 1024 * 1024,
            r.backlog_hard_limit_bytes == 0,
    {
        let mut subs: Vec<String> = Vec::new();
        subs.push(String::from_str("tcp://localhost:5555"));
        MergerConfig {
            sub_addresses: subs,
            pub_address: String::from_str("tcp://*:5556"),
            command_address: String::from_str("tcp://*:5570"),
            backlog_soft_limit_bytes: 4096 * 1024 * 1024,
            backlog_hard_limit_bytes: 0,
        }
    }
}

/// Merger errors. A failure of the transport or of the codecs is carried
/// as that library's own message.
#[derive(Debug, Clone)]
pub enum MergerError {
    /// ZMQ transport error
    Zmq(String),
    /// ZMQ socket error
    ZmqSocket(String),
    /// MessagePack serialization error
    Serialization(String),
    /// MessagePack deserialization error
    Deserialization(String),
    /// The receiver-to-sender channel was closed
    ChannelSend,
    /// No upstream address to subscribe to
    NoUpstreamAddresses,
}

/// The message of a merger error.
pub open spec fn merger_error_text(e: MergerError) -> Seq<char> {
    match e {
        MergerError::Zmq(m) => "ZMQ error: "@ + m@,
        MergerError::ZmqSocket(m) => "ZMQ socket error: "@ + m@,
        MergerError::Serialization(m) => "Serialization error: "@ + m@,
        MergerError::Deserialization(m) => "Deserialization error: "@ + m@,
        MergerError::ChannelSend => "Channel send error"@,
        MergerError::NoUpstreamAddresses => "No upstream addresses configured"@,
    }
}

impl MergerError {
    /// The error's message.
    pub fn to_string(&self) -> (r: String)
        ensures
            r@ == merger_error_text(*self),
    {
        let (prefix, m) = match self {
            MergerError::Zmq(m) => ("ZMQ error: ", m),
            MergerError::ZmqSocket(m) => ("ZMQ socket error: ", m),
            MergerError::Serialization(m) => ("Serialization error: ", m),
            MergerError::Deserialization(m) => ("Deserialization error: ", m),
            MergerError::ChannelSend => {
                return String::from_str("Channel send error");
            },
            MergerError::NoUpstreamAddresses => {
                return String::from_str("No upstream addresses configured");
            },
        };
        let mut s = String::from_str(prefix);
        s.append(m.as_str());
        s
    }
}

/// Per-source statistics with sequence tracking
#[derive(Debug, Clone, Copy, PartialEq, Eq, Structural)]
pub struct SourceStats {
    pub last_sequence: Option<u64>,
    pub total_batches: u64,
    pub restart_count: u32,
    pub gaps_detected: u64,
    pub total_gap_size: u64,
}

impl Default for SourceStats {
    fn default() -> (r: SourceStats)
        ensures
            r == fresh_source_stats(),
    {
        SourceStats {
            last_sequence: None,
            total_batches: 0,
            restart_count: 0,
            gaps_detected: 0,
            total_gap_size: 0,
        }
    }
}

/// Statistics of a source no batch has been seen from.
pub open spec fn fresh_source_stats() -> SourceStats {
    SourceStats {
        last_sequence: None,
        total_batches: 0,
        restart_count: 0,
        gaps_detected: 0,
        total_gap_size: 0,
    }
}

/// What `SourceStats::update` observed about a batch's sequence number.
#[derive(Debug, Clone, Copy, PartialEq, Eq, Structural)]
pub enum SeqEvent {
    /// Sequence advanced normally (or first batch from this source).
    InOrder,
    /// `gap` batches are missing between the last and this sequence number.
    Gap(u64),
    /// Sequence number jumped far backwards: source restart.
    Restart,
}

/// How a sequence number relates to the last one seen: a jump back by more
/// than 100 is a restart, a jump forward by more than one a gap.
pub open spec fn classify(last: Option<u64>, seq: u64) -> SeqEvent {
    match last {
        None => SeqEvent::InOrder,
        Some(l) => if (seq as int) < l - 100 {
            SeqEvent::Restart
        } else if seq > l + 1 {
            SeqEvent::Gap((seq - l - 1) as u64)
        } else {
            SeqEvent::InOrder
        },
    }
}

/// The statistics after a batch with sequence number `seq`.
pub open spec fn spec_update(s: SourceStats, seq: u64) -> SourceStats {
    let base = SourceStats {
        last_sequence: Some(seq),
        total_batches: (s.total_batches + 1) as u64,
        ..s
    };
    match classify(s.last_sequence, seq) {
        SeqEvent::Restart => SourceStats { restart_count: (s.restart_count + 1) as u32, ..base },
        SeqEvent::Gap(g) => SourceStats {
            gaps_detected: (s.gaps_detected + 1) as u64,
            total_gap_size: (s.total_gap_size + g) as u64,
            ..base
        },
        SeqEvent::InOrder => base,
    }
}

/// The update's counters fit their types.
pub open spec fn update_fits(s: SourceStats, seq: u64) -> bool {
    &&& s.total_batches < u64::MAX
    &&& match s.last_sequence {
        Some(l) => (seq as int) >= l - 100 ==> l < u64::MAX,
        None => true,
    }
    &&& match classify(s.last_sequence, seq) {
        SeqEvent::Restart => s.restart_count < u32::MAX,
        SeqEvent::Gap(g) => s.gaps_detected < u64::MAX && s.total_gap_size + g <= u64::MAX,
        SeqEvent::InOrder => true,
    }
}

impl SourceStats {
    /// Whether recording `seq` keeps every counter in range.
    pub fn fits(&self, seq: u64) -> (r: bool)
        ensures
            r == update_fits(*self, seq),
    {
        if self.total_batches == u64::MAX {
            return false;
        }
        match self.last_sequence {
            Some(last) => {
                if seq < last.saturating_sub(100) {
                    self.restart_count < u32::MAX
                } else if last == u64::MAX {
                    false
                } else if seq > last + 1 {
                    self.gaps_detected < u64::MAX && self.total_gap_size <= u64::MAX - (seq - last - 1)
                } else {
                    true
                }
            },
            None => true,
        }
    }

    /// Record a batch's sequence number and report what it shows.
    pub fn update(&mut self, seq: u64) -> (r: SeqEvent)
        requires
            update_fits(*old(self), seq),
        ensures
            r == classify(old(self).last_sequence, seq),
            *final(self) == spec_update(*old(self), seq),
    {
        let event = match self.last_sequence {
            Some(last) => {
                if seq < last.saturating_sub(100) {
                    self.restart_count = self.restart_count + 1;
                    SeqEvent::Restart
                } else {
                    let expected = last + 1;
                    if seq > expected {
                        let gap = seq - expected;
                        self.gaps_detected = self.gaps_detected + 1;
                        self.total_gap_size = self.total_gap_size + gap;
                        SeqEvent::Gap(gap)
                    } else {
                        SeqEvent::InOrder
                    }
                }
            },
            None => SeqEvent::InOrder,
        };
        self.last_sequence = Some(seq);
        self.total_batches = self.total_batches + 1;
        event
    }
}

/// Batch counters of the merger's hot path.
#[derive(Debug, Clone, Copy, PartialEq, Eq, Structural)]
pub struct AtomicStats {
    pub received_batches: u64,
    pub sent_batches: u64,
    pub dropped_batches: u64,
    pub eos_received: u64,
}

impl AtomicStats {
    /// Zeroed counters.
    pub fn new() -> (r: AtomicStats)
        ensures
            r == (AtomicStats { received_batches: 0, sent_batches: 0, dropped_batches: 0, eos_received: 0 }),
    {
        AtomicStats { received_batches: 0, sent_batches: 0, dropped_batches: 0, eos_received: 0 }
    }

    pub fn record_received(&mut self)
        ensures
            *final(self) == (AtomicStats { received_batches: wrap_add(old(self).received_batches, 1), ..*old(self) }),
    {
        self.received_batches = self.received_batches.wrapping_add(1);
    }

    pub fn record_sent(&mut self)
        ensures
            *final(self) == (AtomicStats { sent_batches: wrap_add(old(self).sent_batches, 1), ..*old(self) }),
    {
        self.sent_batches = self.sent_batches.wrapping_add(1);
    }

    pub fn record_drop(&mut self)
        ensures
            *final(self) == (AtomicStats { dropped_batches: wrap_add(old(self).dropped_batches, 1), ..*old(self) }),
    {
        self.dropped_batches = self.dropped_batches.wrapping_add(1);
    }

    pub fn record_eos(&mut self)
        ensures
            *final(self) == (AtomicStats { eos_received: wrap_add(old(self).eos_received, 1), ..*old(self) }),
    {
        self.eos_received = self.eos_received.wrapping_add(1);
    }

    /// (received, sent, dropped, eos)
    pub fn snapshot(&self) -> (r: (u64, u64, u64, u64))
        ensures
            r == (self.received_batches, self.sent_batches, self.dropped_batches, self.eos_received),
    {
        (self.received_batches, self.sent_batches, self.dropped_batches, self.eos_received)
    }

    pub fn clear(&mut self)
        ensures
            *final(self) == (AtomicStats { received_batches: 0, sent_batches: 0, dropped_batches: 0, eos_received: 0 }),
    {
        self.received_batches = 0;
        self.sent_batches = 0;
        self.dropped_batches = 0;
        self.eos_received = 0;
    }
}

/// Gap count of a source's statistics.
pub open spec fn source_gaps() -> spec_fn(SourceStats) -> nat {
    |s: SourceStats| s.gaps_detected as nat
}

/// Missing-batch count of a source's statistics.
pub open spec fn source_missing() -> spec_fn(SourceStats) -> nat {
    |s: SourceStats| s.total_gap_size as nat
}

/// Sum of `gaps_detected` over all sources of a map.
pub open spec fn map_total_gaps(m: Map<u32, SourceStats>) -> nat {
    map_total(m, source_gaps())
}

/// Sum of `total_gap_size` over all sources of a map.
pub open spec fn map_total_missing(m: Map<u32, SourceStats>) -> nat {
    map_total(m, source_missing())
}

/// The concurrent per-source map of the merger's receiver.
#[verifier::external_type_specification]
#[verifier::external_body]
#[verifier::reject_recursive_types(K)]
#[verifier::reject_recursive_types(V)]
#[verifier::reject_recursive_types(S)]
pub struct ExDashMap<K, V, S>(dashmap::DashMap<K, V, S>);

/// The entries of a per-source statistics map.
pub uninterp spec fn source_map_contents(m: DashMap<u32, SourceStats>) -> Map<u32, SourceStats>;

/// Per-source statistics, keyed by source id, in the concurrent map that
/// the receiver fills.
pub struct SourceMap {
    inner: DashMap<u32, SourceStats>,
}

impl SourceMap {
    /// The entries of the map.
    pub closed spec fn contents(&self) -> Map<u32, SourceStats> {
        source_map_contents(self.inner)
    }

    /// `DashMap::new`: the new map holds no entry.
    #[verifier::external_body]
    fn new() -> (m: SourceMap)
        ensures
            source_map_contents(m.inner).dom() == Set::<u32>::empty(),
    {
        SourceMap { inner: DashMap::new() }
    }

    /// `DashMap::get`, copying the value out: the entry of `id`, if any.
    #[verifier::external_body]
    fn get(&self, id: u32) -> (r: Option<SourceStats>)
        ensures
            r == (if self.contents().contains_key(id) {
                Some(self.contents()[id])
            } else {
                None
            }),
    {
        self.inner.get(&id).map(|e| *e)
    }

    /// `DashMap::insert`: `id` maps to `s` afterwards, every other entry stays.
    #[verifier::external_body]
    pub fn insert(&mut self, id: u32, s: SourceStats)
        ensures
            final(self).contents() == old(self).contents().insert(id, s),
    {
        self.inner.insert(id, s);
    }

    /// `DashMap::clear`: no entry is left.
    #[verifier::external_body]
    fn clear(&mut self)
        ensures
            final(self).contents().dom() == Set::<u32>::empty(),
    {
        self.inner.clear();
    }

    /// `DashMap::iter` collected into a `HashMap`: the same entries.
    #[verifier::external_body]
    fn snapshot(&self) -> (r: HashMap<u32, SourceStats>)
        ensures
            r@ == self.contents(),
    {
        self.inner.iter().map(|e| (*e.key(), *e.value())).collect()
    }
}

/// Whether a frame's header is an EndOfStream marker.
pub open spec fn spec_is_eos(b: Seq<u8>) -> bool {
    spec_parse(b) matches Some(MessageHeader::EndOfStream { .. })
}

/// True when a raw frame is an EndOfStream marker. EOS is exempt from the
/// not-Running discard in both merger tasks: dropping it would leave every
/// consumer that finalizes its run on EOS waiting forever.
pub fn frame_is_eos(data: &[u8]) -> (r: bool)
    ensures
        r == spec_is_eos(data@),
{
    match MessageHeader::parse(data) {
        Some(MessageHeader::EndOfStream { .. }) => true,
        _ => false,
    }
}

/// Sum of a sequence of lengths.
pub open spec fn seq_sum(s: Seq<u64>) -> nat
    decreases s.len(),
{
    if s.len() == 0 {
        0
    } else {
        seq_sum(s.drop_last()) + s.last() as nat
    }
}

/// Total size of a multipart message, from the sizes of its frames.
pub fn frame_bytes(lens: &[u64]) -> (r: u64)
    requires
        seq_sum(lens@) <= u64::MAX,
    ensures
        r == seq_sum(lens@),
{
    let mut total: u64 = 0;
    let mut i: usize = 0;
    while i < lens.len()
        invariant
            i <= lens.len(),
            total == seq_sum(lens@.take(i as int)),
            seq_sum(lens@) <= u64::MAX,
        decreases lens.len() - i,
    {
        proof {
            assert(lens@.take(i + 1).drop_last() == lens@.take(i as int));
            lemma_seq_sum_prefix(lens@, i + 1);
        }
        total = total + lens[i];
        i = i + 1;
    }
    proof {
        assert(lens@.take(lens.len() as int) == lens@);
    }
    total
}

/// A prefix sums to at most the whole.
proof fn lemma_seq_sum_prefix(s: Seq<u64>, i: int)
    requires
        0 <= i <= s.len(),
    ensures
        seq_sum(s.take(i)) <= seq_sum(s),
    decreases s.len(),
{
    if i < s.len() {
        lemma_seq_sum_prefix(s.drop_last(), i);
        assert(s.drop_last().take(i) == s.take(i));
    } else {
        assert(s.take(i) == s);
    }
}

/// Whether the n-th discarded batch is logged: the first, then every
/// thousandth.
pub open spec fn discard_logged(n: u64) -> bool {
    n == 1 || n % 1000 == 0
}

/// What the receiver did with one incoming message.
#[derive(Debug, Clone, Copy, PartialEq, Eq, Structural)]
pub enum ReceiveOutcome {
    /// Discarded because the merger is not Running; `total` is the
    /// discard count now, `log` whether this discard is to be logged.
    Discarded { total: u64, log: bool },
    /// The message had no frame.
    Empty,
    /// The first frame carries no header the merger knows.
    Unparseable,
    /// Queued for the sender; for a Data batch, what its sequence number
    /// showed.
    Forwarded { header: MessageHeader, event: Option<SeqEvent> },
}

/// What the sender does with one message taken from the channel.
#[derive(Debug, Clone, Copy, PartialEq, Eq, Structural)]
pub enum SendDecision {
    /// Publish it; `eos_while_stopped` marks an EndOfStream published while
    /// not Running.
    Publish { eos_while_stopped: bool },
    /// Discarded because the merger is not Running.
    Discarded { total: u64, log: bool },
}

/// What the periodic backlog check reports.
#[derive(Debug, Clone, Copy, PartialEq, Eq, Structural)]
pub enum BacklogReport {
    /// The level rose to this value since the last check (warn).
    Raised(u8),
    /// The level fell back to 0 (info).
    Cleared,
    /// Nothing to report.
    Quiet,
}

/// What the backlog check reports for a level against the last one logged.
pub open spec fn spec_backlog_report(level: u8, last: u8) -> BacklogReport {
    if level > last {
        BacklogReport::Raised(level)
    } else if level < last && level == 0 {
        BacklogReport::Cleared
    } else {
        BacklogReport::Quiet
    }
}

/// The queue after one enqueue of `bytes`.
pub open spec fn queue_enqueued(pre: QueueAccounting, post: QueueAccounting, bytes: u64) -> bool {
    &&& post.enq_items() == wrap_add(pre.enq_items(), 1)
    &&& post.enq_bytes() == wrap_add(pre.enq_bytes(), bytes)
    &&& post.deq_items() == pre.deq_items()
    &&& post.deq_bytes() == pre.deq_bytes()
    &&& post.peak() == max_u64(pre.peak(), post.spec_depth_bytes())
}

/// The queue after one dequeue of `bytes`.
pub open spec fn queue_dequeued(pre: QueueAccounting, post: QueueAccounting, bytes: u64) -> bool {
    &&& post.deq_items() == wrap_add(pre.deq_items(), 1)
    &&& post.deq_bytes() == wrap_add(pre.deq_bytes(), bytes)
    &&& post.enq_items() == pre.enq_items()
    &&& post.enq_bytes() == pre.enq_bytes()
    &&& post.peak() == pre.peak()
}

/// The statistics a source has before its next batch.
pub open spec fn current_stats(m: Map<u32, SourceStats>, id: u32) -> SourceStats {
    if m.contains_key(id) { m[id] } else { fresh_source_stats() }
}

/// The frame bytes behind an optional first frame.
pub open spec fn frame_view(first: Option<&[u8]>) -> Option<Seq<u8>> {
    match first {
        Some(d) => Some(d@),
        None => None,
    }
}

/// What the receiver's handling of one message does: `pre` and `post` are
/// the state before and after, `first` the first frame's bytes, `bytes` the
/// message size, `r` the outcome.
pub open spec fn receive_step(
    pre: MergerExtState,
    post: MergerExtState,
    is_running: bool,
    first: Option<Seq<u8>>,
    bytes: u64,
    r: ReceiveOutcome,
) -> bool {
    &&& post.backlog_soft_limit_bytes == pre.backlog_soft_limit_bytes
    &&& post.backlog_hard_limit_bytes == pre.backlog_hard_limit_bytes
    &&& post.last_logged_level == pre.last_logged_level
    &&& {
        let is_eos = first is Some && spec_is_eos(first->0);
        if !is_running && !is_eos {
            let n = (pre.atomic_stats.dropped_batches + 1) as u64;
            &&& r == ReceiveOutcome::Discarded { total: n, log: discard_logged(n) }
            &&& post.atomic_stats == (AtomicStats { dropped_batches: n, ..pre.atomic_stats })
            &&& post.source_stats == pre.source_stats
            &&& post.queue == pre.queue
        } else if first is None {
            r == ReceiveOutcome::Empty && post == pre
        } else {
            match spec_parse(first->0) {
                None => r == ReceiveOutcome::Unparseable && post == pre,
                Some(h) => {
                    &&& queue_enqueued(pre.queue, post.queue, bytes)
                    &&& match h {
                        MessageHeader::Data { source_id, sequence_number } => {
                            let cur = current_stats(pre.source_stats.contents(), source_id);
                            &&& r == ReceiveOutcome::Forwarded {
                                header: h,
                                event: Some(classify(cur.last_sequence, sequence_number)),
                            }
                            &&& post.atomic_stats == (AtomicStats {
                                received_batches: wrap_add(pre.atomic_stats.received_batches, 1),
                                ..pre.atomic_stats
                            })
                            &&& post.source_stats.contents() == pre.source_stats.contents().insert(
                                source_id,
                                spec_update(cur, sequence_number),
                            )
                        },
                        MessageHeader::EndOfStream { .. } => {
                            &&& r == ReceiveOutcome::Forwarded { header: h, event: None }
                            &&& post.atomic_stats == (AtomicStats {
                                eos_received: wrap_add(pre.atomic_stats.eos_received, 1),
                                ..pre.atomic_stats
                            })
                            &&& post.source_stats == pre.source_stats
                        },
                        MessageHeader::Heartbeat { .. } => {
                            &&& r == ReceiveOutcome::Forwarded { header: h, event: None }
                            &&& post.atomic_stats == pre.atomic_stats
                            &&& post.source_stats == pre.source_stats
                        },
                    }
                },
            }
        }
    }
}

/// What the sender's handling of one message taken from the channel
/// does.
pub open spec fn send_step(
    pre: MergerExtState,
    post: MergerExtState,
    is_running: bool,
    first: Option<Seq<u8>>,
    bytes: u64,
    r: SendDecision,
) -> bool {
    &&& queue_dequeued(pre.queue, post.queue, bytes)
    &&& post.source_stats == pre.source_stats
    &&& post.backlog_soft_limit_bytes == pre.backlog_soft_limit_bytes
    &&& post.backlog_hard_limit_bytes == pre.backlog_hard_limit_bytes
    &&& post.last_logged_level == pre.last_logged_level
    &&& {
        let is_eos = first is Some && spec_is_eos(first->0);
        if is_running {
            r == SendDecision::Publish { eos_while_stopped: false } && post.atomic_stats == pre.atomic_stats
        } else if is_eos {
            r == SendDecision::Publish { eos_while_stopped: true } && post.atomic_stats == pre.atomic_stats
        } else {
            let n = (pre.atomic_stats.dropped_batches + 1) as u64;
            &&& r == SendDecision::Discarded { total: n, log: discard_logged(n) }
            &&& post.atomic_stats == (AtomicStats { dropped_batches: n, ..pre.atomic_stats })
        }
    }
}

/// An EndOfStream marker is never discarded: the receiver forwards it and
/// counts it whatever the state.
pub proof fn lemma_eos_forwarded_by_receiver(
    pre: MergerExtState,
    post: MergerExtState,
    is_running: bool,
    first: Seq<u8>,
    bytes: u64,
    r: ReceiveOutcome,
)
    requires
        receive_step(pre, post, is_running, Some(first), bytes, r),
        spec_is_eos(first),
    ensures
        r matches ReceiveOutcome::Forwarded { header: MessageHeader::EndOfStream { .. }, event: None },
        post.atomic_stats.eos_received == wrap_add(pre.atomic_stats.eos_received, 1),
        post.atomic_stats.dropped_batches == pre.atomic_stats.dropped_batches,
{
}

/// An EndOfStream marker taken from the channel is always published.
pub proof fn lemma_eos_published_by_sender(
    pre: MergerExtState,
    post: MergerExtState,
    is_running: bool,
    first: Seq<u8>,
    bytes: u64,
    r: SendDecision,
)
    requires
        send_step(pre, post, is_running, Some(first), bytes, r),
        spec_is_eos(first),
    ensures
        r is Publish,
        post.atomic_stats.dropped_batches == pre.atomic_stats.dropped_batches,
{
}

/// While not Running, every message but an EndOfStream is discarded, and
/// every discard is counted (never silent): by the receiver and by the
/// sender alike.
pub proof fn lemma_stopped_data_discarded_and_counted(
    pre: MergerExtState,
    post: MergerExtState,
    first: Option<Seq<u8>>,
    bytes: u64,
    received: ReceiveOutcome,
    post2: MergerExtState,
    sent: SendDecision,
)
    requires
        receive_step(pre, post, false, first, bytes, received),
        send_step(pre, post2, false, first, bytes, sent),
        !(first is Some && spec_is_eos(first->0)),
        pre.atomic_stats.dropped_batches < u64::MAX,
    ensures
        received is Discarded,
        sent is Discarded,
        post.atomic_stats.dropped_batches == pre.atomic_stats.dropped_batches + 1,
        post2.atomic_stats.dropped_batches == pre.atomic_stats.dropped_batches + 1,
        post.queue == pre.queue,
{
}

/// Extended state for the merger: sequence tracking, batch counters and the
/// backlog gauge of the receiver-to-sender channel.
pub struct MergerExtState {
    /// Sequence tracking per source
    pub source_stats: SourceMap,
    /// Hot-path counters
    pub atomic_stats: AtomicStats,
    /// Backlog gauge: lifetime counters, not cleared by `clear`; only the
    /// peak is re-based per run.
    pub queue: QueueAccounting,
    /// Soft backlog watermark in bytes (0 = disabled)
    pub backlog_soft_limit_bytes: u64,
    /// Hard backlog watermark in bytes (0 = disabled)
    pub backlog_hard_limit_bytes: u64,
    /// Last backlog level the periodic check logged
    pub last_logged_level: u8,
}

impl MergerExtState {
    pub fn new(backlog_soft_limit_bytes: u64, backlog_hard_limit_bytes: u64) -> (r: MergerExtState)
        ensures
            r.source_stats.contents().dom() == Set::<u32>::empty(),
            r.atomic_stats == (AtomicStats { received_batches: 0, sent_batches: 0, dropped_batches: 0, eos_received: 0 }),
            r.queue.enq_items() == 0 && r.queue.deq_items() == 0,
            r.queue.enq_bytes() == 0 && r.queue.deq_bytes() == 0,
            r.queue.peak() == 0,
            r.backlog_soft_limit_bytes == backlog_soft_limit_bytes,
            r.backlog_hard_limit_bytes == backlog_hard_limit_bytes,
            r.last_logged_level == 0,
    {
        MergerExtState {
            source_stats: SourceMap::new(),
            atomic_stats: AtomicStats::new(),
            queue: QueueAccounting::new(),
            backlog_soft_limit_bytes,
            backlog_hard_limit_bytes,
            last_logged_level: 0,
        }
    }

    /// Current backlog severity (0/1/2) of the channel gauge.
    pub fn backlog_level(&self) -> (r: u8)
        ensures
            r == spec_backlog_level(
                self.queue.spec_depth_bytes(),
                self.backlog_soft_limit_bytes,
                self.backlog_hard_limit_bytes,
            ),
    {
        backlog_level(self.queue.depth_bytes(), self.backlog_soft_limit_bytes, self.backlog_hard_limit_bytes)
    }

    /// Snapshot of the counters and of every source's statistics.
    pub fn get_stats(&self) -> (r: MergerStats)
        ensures
            r.received_batches == self.atomic_stats.received_batches,
            r.sent_batches == self.atomic_stats.sent_batches,
            r.dropped_batches == self.atomic_stats.dropped_batches,
            r.eos_received == self.atomic_stats.eos_received,
            r.sources@ == self.source_stats.contents(),
    {
        let (received, sent, dropped, eos) = self.atomic_stats.snapshot();
        let sources = self.source_stats.snapshot();
        MergerStats {
            received_batches: received,
            sent_batches: sent,
            dropped_batches: dropped,
            eos_received: eos,
            sources,
        }
    }

    /// Forget every source's statistics.
    pub fn clear(&mut self)
        ensures
            final(self).source_stats.contents().dom() == Set::<u32>::empty(),
            final(self).atomic_stats == old(self).atomic_stats,
            final(self).queue == old(self).queue,
            final(self).backlog_soft_limit_bytes == old(self).backlog_soft_limit_bytes,
            final(self).backlog_hard_limit_bytes == old(self).backlog_hard_limit_bytes,
            final(self).last_logged_level == old(self).last_logged_level,
    {
        self.source_stats.clear();
    }

    /// Whether the statistics of `source_id` can take a batch with
    /// sequence number `seq` without a counter overflowing.
    pub fn can_record(&self, source_id: u32, seq: u64) -> (r: bool)
        ensures
            r == update_fits(current_stats(self.source_stats.contents(), source_id), seq),
    {
        let cur = match self.source_stats.get(source_id) {
            Some(st) => st,
            None => SourceStats::default(),
        };
        cur.fits(seq)
    }

    /// Update the statistics of `source_id` with a batch's sequence number.
    pub fn record_sequence(&mut self, source_id: u32, seq: u64) -> (r: SeqEvent)
        requires
            update_fits(current_stats(old(self).source_stats.contents(), source_id), seq),
        ensures
            r == classify(current_stats(old(self).source_stats.contents(), source_id).last_sequence, seq),
            final(self).source_stats.contents() == old(self).source_stats.contents().insert(
                source_id,
                spec_update(current_stats(old(self).source_stats.contents(), source_id), seq),
            ),
            final(self).atomic_stats == old(self).atomic_stats,
            final(self).queue == old(self).queue,
            final(self).backlog_soft_limit_bytes == old(self).backlog_soft_limit_bytes,
            final(self).backlog_hard_limit_bytes == old(self).backlog_hard_limit_bytes,
            final(self).last_logged_level == old(self).last_logged_level,
    {
        let mut cur = match self.source_stats.get(source_id) {
            Some(st) => st,
            None => SourceStats::default(),
        };
        let event = cur.update(seq);
        self.source_stats.insert(source_id, cur);
        event
    }

    /// Count one batch discarded while not Running; the new count and
    /// whether it is to be logged.
    fn count_discard(&mut self) -> (r: (u64, bool))
        requires
            old(self).atomic_stats.dropped_batches < u64::MAX,
        ensures
            r.0 == old(self).atomic_stats.dropped_batches + 1,
            r.1 == discard_logged(r.0),
            final(self).atomic_stats == (AtomicStats {
                dropped_batches: r.0,
                ..old(self).atomic_stats
            }),
            final(self).source_stats == old(self).source_stats,
            final(self).queue == old(self).queue,
            final(self).backlog_soft_limit_bytes == old(self).backlog_soft_limit_bytes,
            final(self).backlog_hard_limit_bytes == old(self).backlog_hard_limit_bytes,
            final(self).last_logged_level == old(self).last_logged_level,
    {
        self.atomic_stats.record_drop();
        let n = self.atomic_stats.dropped_batches;
        (n, n == 1 || n % 1000 == 0)
    }

    /// The receiver's handling of one message: `first` is its first frame
    /// (if any), `bytes` its total size.
    ///
    /// While not Running every message but an EndOfStream is discarded and
    /// counted. Otherwise the header of the first frame is parsed: a Data
    /// batch is counted and its source's sequence tracked, an EndOfStream is
    /// counted, a Heartbeat passes as it is; an unknown header is skipped.
    /// A forwarded message enters the channel gauge before it is sent.
    pub fn on_frame(&mut self, is_running: bool, first: Option<&[u8]>, bytes: u64) -> (r: ReceiveOutcome)
        requires
            !is_running && !(first is Some && spec_is_eos(first->0@))
                ==> old(self).atomic_stats.dropped_batches < u64::MAX,
            (is_running || (first is Some && spec_is_eos(first->0@))) && first is Some
                ==> match spec_parse(first->0@) {
                Some(MessageHeader::Data { source_id, sequence_number }) => update_fits(
                    current_stats(old(self).source_stats.contents(), source_id),
                    sequence_number,
                ),
                _ => true,
            },
        ensures
            receive_step(*old(self), *final(self), is_running, frame_view(first), bytes, r),
    {
        let is_eos = match first {
            Some(d) => frame_is_eos(d),
            None => false,
        };
        if !is_running && !is_eos {
            let (total, log) = self.count_discard();
            return ReceiveOutcome::Discarded { total, log };
        }
        let data = match first {
            Some(d) => d,
            None => {
                return ReceiveOutcome::Empty;
            },
        };
        let header = match MessageHeader::parse(data) {
            Some(h) => h,
            None => {
                return ReceiveOutcome::Unparseable;
            },
        };
        let event = match header {
            MessageHeader::Data { source_id, sequence_number } => {
                self.atomic_stats.record_received();
                Some(self.record_sequence(source_id, sequence_number))
            },
            MessageHeader::EndOfStream { .. } => {
                self.atomic_stats.record_eos();
                None
            },
            MessageHeader::Heartbeat { .. } => None,
        };
        self.queue.on_enqueue(bytes);
        ReceiveOutcome::Forwarded { header, event }
    }

    /// The sender's handling of one message taken from the channel: it
    /// leaves the gauge whatever happens next; while not Running only an
    /// EndOfStream is published, anything else is discarded and counted.
    pub fn on_channel_item(&mut self, is_running: bool, first: Option<&[u8]>, bytes: u64) -> (r: SendDecision)
        requires
            !is_running && !(first is Some && spec_is_eos(first->0@))
                ==> old(self).atomic_stats.dropped_batches < u64::MAX,
        ensures
            send_step(*old(self), *final(self), is_running, frame_view(first), bytes, r),
    {
        self.queue.on_dequeue(bytes);
        if is_running {
            return SendDecision::Publish { eos_while_stopped: false };
        }
        let is_eos = match first {
            Some(d) => frame_is_eos(d),
            None => false,
        };
        if is_eos {
            SendDecision::Publish { eos_while_stopped: true }
        } else {
            let (total, log) = self.count_discard();
            SendDecision::Discarded { total, log }
        }
    }

    /// Count the outcome of a publish: sent on success, dropped on failure.
    pub fn on_publish_result(&mut self, ok: bool)
        ensures
            final(self).atomic_stats == (if ok {
                AtomicStats { sent_batches: wrap_add(old(self).atomic_stats.sent_batches, 1), ..old(self).atomic_stats }
            } else {
                AtomicStats { dropped_batches: wrap_add(old(self).atomic_stats.dropped_batches, 1), ..old(self).atomic_stats }
            }),
            final(self).source_stats == old(self).source_stats,
            final(self).queue == old(self).queue,
            final(self).backlog_soft_limit_bytes == old(self).backlog_soft_limit_bytes,
            final(self).backlog_hard_limit_bytes == old(self).backlog_hard_limit_bytes,
            final(self).last_logged_level == old(self).last_logged_level,
    {
        if ok {
            self.atomic_stats.record_sent();
        } else {
            self.atomic_stats.record_drop();
        }
    }

    /// The periodic backlog check: remember the current level and report a
    /// rise (warn) or a fall back to 0 (info); at most one report per check.
    pub fn backlog_tick(&mut self) -> (r: BacklogReport)
        ensures
            ({
                let level = spec_backlog_level(
                    old(self).queue.spec_depth_bytes(),
                    old(self).backlog_soft_limit_bytes,
                    old(self).backlog_hard_limit_bytes,
                );
                &&& final(self).last_logged_level == level
                &&& r == spec_backlog_report(level, old(self).last_logged_level)
            }),
            final(self).source_stats == old(self).source_stats,
            final(self).atomic_stats == old(self).atomic_stats,
            final(self).queue == old(self).queue,
            final(self).backlog_soft_limit_bytes == old(self).backlog_soft_limit_bytes,
            final(self).backlog_hard_limit_bytes == old(self).backlog_hard_limit_bytes,
    {
        let level = self.backlog_level();
        let last = self.last_logged_level;
        self.last_logged_level = level;
        if level > last {
            BacklogReport::Raised(level)
        } else if level < last && level == 0 {
            BacklogReport::Cleared
        } else {
            BacklogReport::Quiet
        }
    }
}

/// `"Received: r, Sent: s, Dropped: d, Gaps: g, Missing: m"`.
pub open spec fn merger_status_text(r: u64, s: u64, d: u64, g: u64, m: u64) -> Seq<char> {
    "Received: "@ + decimal(r as nat) + ", Sent: "@ + decimal(s as nat) + ", Dropped: "@
        + decimal(d as nat) + ", Gaps: "@ + decimal(g as nat) + ", Missing: "@ + decimal(m as nat)
}

/// What the start-of-run (and reset) clearing leaves of the merger's
/// state: no per-source statistics, zeroed batch counters, the gauge's peak
/// re-based at its depth (its lifetime counters kept), the watermarks and
/// the last logged level kept.
pub open spec fn cleared_for_run(pre: MergerExtState, post: MergerExtState) -> bool {
    &&& post.source_stats.contents().dom() == Set::<u32>::empty()
    &&& post.atomic_stats == (AtomicStats { received_batches: 0, sent_batches: 0, dropped_batches: 0, eos_received: 0 })
    &&& queue_step(pre.queue, QueueOp::ResetPeak, post.queue)
    &&& post.backlog_soft_limit_bytes == pre.backlog_soft_limit_bytes
    &&& post.backlog_hard_limit_bytes == pre.backlog_hard_limit_bytes
    &&& post.last_logged_level == pre.last_logged_level
}

/// Command handler extension for the merger: resets its statistics on
/// Start and Reset and reports them in GetStatus.
pub struct MergerCommandExt<'a> {
    pub ext_state: &'a mut MergerExtState,
}

impl<'a> MergerCommandExt<'a> {
    /// The start-of-run (and reset) clearing: per-source statistics and
    /// batch counters go back to zero, the gauge's peak is re-based at the
    /// current depth; the gauge's lifetime counters stay.
    fn clear_for_run(&mut self)
        ensures
            final(self).ext_state.source_stats.contents().dom() == Set::<u32>::empty(),
            final(self).ext_state.atomic_stats == (AtomicStats {
                received_batches: 0,
                sent_batches: 0,
                dropped_batches: 0,
                eos_received: 0,
            }),
            final(self).ext_state.queue.peak() == old(self).ext_state.queue.spec_depth_bytes(),
            final(self).ext_state.queue.enq_items() == old(self).ext_state.queue.enq_items(),
            final(self).ext_state.queue.enq_bytes() == old(self).ext_state.queue.enq_bytes(),
            final(self).ext_state.queue.deq_items() == old(self).ext_state.queue.deq_items(),
            final(self).ext_state.queue.deq_bytes() == old(self).ext_state.queue.deq_bytes(),
            final(self).ext_state.backlog_soft_limit_bytes == old(self).ext_state.backlog_soft_limit_bytes,
            final(self).ext_state.backlog_hard_limit_bytes == old(self).ext_state.backlog_hard_limit_bytes,
            final(self).ext_state.last_logged_level == old(self).ext_state.last_logged_level,
    {
        self.ext_state.clear();
        self.ext_state.atomic_stats.clear();
        self.ext_state.queue.reset_peak();
    }
}

impl<'a> CommandHandlerExt for MergerCommandExt<'a> {
    /// Start clears the run statistics.
    open spec fn start_effect(&self, run_number: u32, post: Self) -> bool {
        cleared_for_run(*self.ext_state, *post.ext_state)
    }

    /// Reset clears the run statistics.
    open spec fn reset_effect(&self, post: Self) -> bool {
        cleared_for_run(*self.ext_state, *post.ext_state)
    }

    open spec fn details(&self) -> Option<Seq<char>> {
        Some(
            merger_status_text(
                self.ext_state.atomic_stats.received_batches,
                self.ext_state.atomic_stats.sent_batches,
                self.ext_state.atomic_stats.dropped_batches,
                (map_total_gaps(self.ext_state.source_stats.contents()) % 0x1_0000_0000_0000_0000) as u64,
                (map_total_missing(self.ext_state.source_stats.contents()) % 0x1_0000_0000_0000_0000) as u64,
            ),
        )
    }
    fn on_configure(&mut self, config: &RunConfig) -> (r: Result<(), String>) {
        Ok(())
    }

    fn on_arm(&mut self) -> (r: Result<(), String>) {
        Ok(())
    }

    fn on_stop(&mut self) -> (r: Result<(), String>) {
        Ok(())
    }

    fn on_update_emulator_config(&mut self, config: &EmulatorRuntimeConfig) -> (r: Result<(), String>) {
        Err(String::from_str("UpdateEmulatorConfig not supported by this component"))
    }

    fn component_name(&self) -> (r: &'static str)
        ensures
            r@ == "Merger"@,
    {
        "Merger"
    }

    fn on_start(&mut self, run_number: u32) -> (r: Result<(), String>)
        ensures
            r is Ok,
            final(self).ext_state.source_stats.contents().dom() == Set::<u32>::empty(),
            final(self).ext_state.atomic_stats == (AtomicStats {
                received_batches: 0,
                sent_batches: 0,
                dropped_batches: 0,
                eos_received: 0,
            }),
            final(self).ext_state.queue.peak() == old(self).ext_state.queue.spec_depth_bytes(),
    {
        self.clear_for_run();
        Ok(())
    }

    fn on_reset(&mut self) -> (r: Result<(), String>)
        ensures
            r is Ok,
            final(self).ext_state.source_stats.contents().dom() == Set::<u32>::empty(),
            final(self).ext_state.atomic_stats == (AtomicStats {
                received_batches: 0,
                sent_batches: 0,
                dropped_batches: 0,
                eos_received: 0,
            }),
            final(self).ext_state.queue.peak() == old(self).ext_state.queue.spec_depth_bytes(),
    {
        self.clear_for_run();
        Ok(())
    }

    fn status_details(&self) -> (r: Option<String>)
        ensures
            r is Some,
            r->0@ == merger_status_text(
                old(self.ext_state).atomic_stats.received_batches,
                old(self.ext_state).atomic_stats.sent_batches,
                old(self.ext_state).atomic_stats.dropped_batches,
                (map_total_gaps(old(self.ext_state).source_stats.contents()) % 0x1_0000_0000_0000_0000) as u64,
                (map_total_missing(old(self.ext_state).source_stats.contents()) % 0x1_0000_0000_0000_0000) as u64,
            ),
    {
        let stats = self.ext_state.get_stats();
        let mut m = String::from_str("Received: ");
        m.append(u64_to_decimal(stats.received_batches).as_str());
        m.append(", Sent: ");
        m.append(u64_to_decimal(stats.sent_batches).as_str());
        m.append(", Dropped: ");
        m.append(u64_to_decimal(stats.dropped_batches).as_str());
        m.append(", Gaps: ");
        m.append(u64_to_decimal(stats.total_gaps()).as_str());
        m.append(", Missing: ");
        m.append(u64_to_decimal(stats.total_missing()).as_str());
        Some(m)
    }
}

/// Merger statistics (for reporting)
#[derive(Debug, Clone)]
pub struct MergerStats {
    pub received_batches: u64,
    pub sent_batches: u64,
    pub dropped_batches: u64,
    pub eos_received: u64,
    pub sources: HashMap<u32, SourceStats>,
}

impl Default for MergerStats {
    fn default() -> (r: MergerStats)
        ensures
            r.received_batches == 0,
            r.sent_batches == 0,
            r.dropped_batches == 0,
            r.eos_received == 0,
            r.sources@ == Map::<u32, SourceStats>::empty(),
    {
        MergerStats {
            received_batches: 0,
            sent_batches: 0,
            dropped_batches: 0,
            eos_received: 0,
            sources: HashMap::new(),
        }
    }
}

impl MergerStats {
    /// Number of gaps over all sources, summed with `u64` wrap-around.
    pub fn total_gaps(&self) -> (r: u64)
        ensures
            r as nat == map_total_gaps(self.sources@) % 0x1_0000_0000_0000_0000,
    {
        let mut acc: u64 = 0;
        let ghost f = add_measure(source_gaps());
        let entries = self.sources.iter();
        let ghost all = entries.remaining();
        let ghost t = all.map_values(|e: (&u32, &SourceStats)| (*e.0, *e.1));
        proof {
            lemma_iteration_lists(&self.sources, all);
            lemma_total_order_independent(t, self.sources@, source_gaps());
            assert(t.take(0) =~= Seq::<(u32, SourceStats)>::empty());
        }
        for e in it: entries
            invariant
                it.seq() == all,
                t == all.map_values(|e: (&u32, &SourceStats)| (*e.0, *e.1)),
                acc as nat == t.take(it.index()).fold_left(0nat, f) % 0x1_0000_0000_0000_0000,
                f == add_measure(source_gaps()),
        {
            proof {
                let i = it.index();
                assert(t.take(i + 1).drop_last() == t.take(i));
                lemma_wrap_step(acc, t.take(i).fold_left(0nat, f), e.1.gaps_detected);
            }
            acc = acc.wrapping_add(e.1.gaps_detected);
        }
        proof {
            assert(t.take(t.len() as int) == t);
        }
        acc
    }

    /// Number of missing batches over all sources, summed with `u64`
    /// wrap-around.
    pub fn total_missing(&self) -> (r: u64)
        ensures
            r as nat == map_total_missing(self.sources@) % 0x1_0000_0000_0000_0000,
    {
        let mut acc: u64 = 0;
        let ghost f = add_measure(source_missing());
        let entries = self.sources.iter();
        let ghost all = entries.remaining();
        let ghost t = all.map_values(|e: (&u32, &SourceStats)| (*e.0, *e.1));
        proof {
            lemma_iteration_lists(&self.sources, all);
            lemma_total_order_independent(t, self.sources@, source_missing());
            assert(t.take(0) =~= Seq::<(u32, SourceStats)>::empty());
        }
        for e in it: entries
            invariant
                it.seq() == all,
                t == all.map_values(|e: (&u32, &SourceStats)| (*e.0, *e.1)),
                acc as nat == t.take(it.index()).fold_left(0nat, f) % 0x1_0000_0000_0000_0000,
                f == add_measure(source_missing()),
        {
            proof {
                let i = it.index();
                assert(t.take(i + 1).drop_last() == t.take(i));
                lemma_wrap_step(acc, t.take(i).fold_left(0nat, f), e.1.total_gap_size);
            }
            acc = acc.wrapping_add(e.1.total_gap_size);
        }
        proof {
            assert(t.take(t.len() as int) == t);
        }
        acc
    }
}

/// What a sequence number shows, on the numbers: with no batch seen before
/// it is in order; a jump back by more than 100 is a restart; a jump
/// forward by `k > 1` is a gap of `k - 1` missing batches; anything else is
/// in order.
pub proof fn lemma_classify_on_numbers(last: Option<u64>, seq: u64)
    ensures
        classify(last, seq) == match last {
            None => SeqEvent::InOrder,
            Some(l) => if seq + 100 < l {
                SeqEvent::Restart
            } else if seq > l + 1 {
                SeqEvent::Gap((seq - l - 1) as u64)
            } else {
                SeqEvent::InOrder
            },
        },
{
}

/// How one batch changes a source's statistics in the merger: its sequence
/// number becomes the last one seen, whatever it showed; one more batch is
/// counted; a jump forward by `k > 1` counts one gap of `k - 1` missing
/// batches, a jump back by more than 100 one restart, and anything else
/// leaves the gap and restart counters as they were.
pub proof fn lemma_merger_update_counts(s: SourceStats, seq: u64)
    requires
        update_fits(s, seq),
    ensures
        spec_update(s, seq).last_sequence == Some(seq),
        spec_update(s, seq).total_batches == s.total_batches + 1,
        match s.last_sequence {
            Some(l) if seq + 100 < l => {
                &&& spec_update(s, seq).restart_count == s.restart_count + 1
                &&& spec_update(s, seq).gaps_detected == s.gaps_detected
                &&& spec_update(s, seq).total_gap_size == s.total_gap_size
            },
            Some(l) if seq > l + 1 => {
                &&& spec_update(s, seq).restart_count == s.restart_count
                &&& spec_update(s, seq).gaps_detected == s.gaps_detected + 1
                &&& spec_update(s, seq).total_gap_size == s.total_gap_size + (seq - l - 1)
            },
            _ => {
                &&& spec_update(s, seq).restart_count == s.restart_count
                &&& spec_update(s, seq).gaps_detected == s.gaps_detected
                &&& spec_update(s, seq).total_gap_size == s.total_gap_size
            },
        },
{
}

/// In the merger, a batch whose sequence number directly follows the
/// previous batch's never counts a gap or a restart, whatever the previous
/// batch showed.
pub proof fn lemma_merger_next_in_order(s: SourceStats, seq: u64)
    requires
        update_fits(s, seq),
        seq < u64::MAX,
    ensures
        spec_update(spec_update(s, seq), (seq + 1) as u64).gaps_detected == spec_update(s, seq).gaps_detected,
        spec_update(spec_update(s, seq), (seq + 1) as u64).total_gap_size == spec_update(s, seq).total_gap_size,
        spec_update(spec_update(s, seq), (seq + 1) as u64).restart_count == spec_update(s, seq).restart_count,
{
    lemma_merger_update_counts(s, seq);
}
} // verus!
