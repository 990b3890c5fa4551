//! Byte/item accounting for the unbounded inter-task channels.
//!
//! The merger and recorder buffer in unbounded channels (no hit is ever
//! dropped for back-pressure), so a slow consumer turns into memory growth.
//! This gauge keeps two cumulative counter pairs (enqueued/dequeued) and
//! derives the depth by saturating subtraction, so it never goes negative.
//! The cumulative counters are lifetime counters and are never cleared;
//! only the peak is per run, and `reset_peak` re-bases it at the *current*
//! depth, not at zero.
//!
//! The counters are plain values updated through `&mut self`; a component
//! that shares one between tasks holds it behind a lock.

use vstd::prelude::*;

verus! {

/// `a + b` modulo 2^64, as the counters' `fetch_add` computes it.
pub open spec fn wrap_add(a: u64, b: u64) -> u64 {
    ((a as nat + b as nat) % 0x1_0000_0000_0000_0000) as u64
}

/// `a - b`, or 0 when `b > a`.
pub open spec fn sat_sub(a: u64, b: u64) -> u64 {
    if a >= b { (a - b) as u64 } else { 0 }
}

pub open spec fn max_u64(a: u64, b: u64) -> u64 {
    if a >= b { a } else { b }
}

/// Cumulative enqueue/dequeue accounting for one channel.
#[derive(Debug)]
pub struct QueueAccounting {
    enqueued_items: u64,
    dequeued_items: u64,
    enqueued_bytes: u64,
    dequeued_bytes: u64,
    /// High-water mark of the byte depth, updated on enqueue.
    peak_bytes: u64,
}

impl QueueAccounting {
    pub closed spec fn enq_items(&self) -> u64 {
        self.enqueued_items
    }

    pub closed spec fn deq_items(&self) -> u64 {
        self.dequeued_items
    }

    pub closed spec fn enq_bytes(&self) -> u64 {
        self.enqueued_bytes
    }

    pub closed spec fn deq_bytes(&self) -> u64 {
        self.dequeued_bytes
    }

    pub closed spec fn peak(&self) -> u64 {
        self.peak_bytes
    }

    /// Current depth in bytes.
    pub open spec fn spec_depth_bytes(&self) -> u64 {
        sat_sub(self.enq_bytes(), self.deq_bytes())
    }

    /// Current depth in items.
    pub open spec fn spec_depth_items(&self) -> u64 {
        sat_sub(self.enq_items(), self.deq_items())
    }

    /// An empty gauge.
    pub fn new() -> (r: QueueAccounting)
        ensures
            fresh_gauge(r),
            r.enq_items() == 0,
            r.deq_items() == 0,
            r.enq_bytes() == 0,
            r.deq_bytes() == 0,
            r.peak() == 0,
    {
        QueueAccounting {
            enqueued_items: 0,
            dequeued_items: 0,
            enqueued_bytes: 0,
            dequeued_bytes: 0,
            peak_bytes: 0,
        }
    }

    /// Record one item of `bytes` entering the channel (call before `send`).
    pub fn on_enqueue(&mut self, bytes: u64)
        ensures
            final(self).enq_items() == wrap_add(old(self).enq_items(), 1),
            final(self).enq_bytes() == wrap_add(old(self).enq_bytes(), bytes),
            final(self).deq_items() == old(self).deq_items(),
            final(self).deq_bytes() == old(self).deq_bytes(),
            final(self).peak() == max_u64(old(self).peak(), final(self).spec_depth_bytes()),
            queue_step(*old(self), QueueOp::Enqueue(bytes), *final(self)),
    {
        self.enqueued_items = self.enqueued_items.wrapping_add(1);
        self.enqueued_bytes = self.enqueued_bytes.wrapping_add(bytes);
        let d = self.depth_bytes();
        if d > self.peak_bytes {
            self.peak_bytes = d;
        }
    }

    /// Record one item of `bytes` leaving the channel — including items
    /// that are then discarded, and the undo path when a `send` fails.
    pub fn on_dequeue(&mut self, bytes: u64)
        ensures
            final(self).deq_items() == wrap_add(old(self).deq_items(), 1),
            final(self).deq_bytes() == wrap_add(old(self).deq_bytes(), bytes),
            final(self).enq_items() == old(self).enq_items(),
            final(self).enq_bytes() == old(self).enq_bytes(),
            final(self).peak() == old(self).peak(),
            queue_step(*old(self), QueueOp::Dequeue(bytes), *final(self)),
    {
        self.dequeued_items = self.dequeued_items.wrapping_add(1);
        self.dequeued_bytes = self.dequeued_bytes.wrapping_add(bytes);
    }

    /// Current channel depth in bytes (never negative).
    pub fn depth_bytes(&self) -> (r: u64)
        ensures
            r == self.spec_depth_bytes(),
    {
        self.enqueued_bytes.saturating_sub(self.dequeued_bytes)
    }

    /// Current channel depth in items (never negative).
    pub fn depth_items(&self) -> (r: u64)
        ensures
            r == self.spec_depth_items(),
    {
        self.enqueued_items.saturating_sub(self.dequeued_items)
    }

    /// High-water mark of the byte depth since the last `reset_peak`.
    pub fn peak_bytes(&self) -> (r: u64)
        ensures
            r == self.peak(),
    {
        self.peak_bytes
    }

    /// Start a new per-run peak window at the current depth (never zero
    /// while a backlog straddles the run boundary).
    pub fn reset_peak(&mut self)
        ensures
            final(self).peak() == old(self).spec_depth_bytes(),
            final(self).enq_items() == old(self).enq_items(),
            final(self).enq_bytes() == old(self).enq_bytes(),
            final(self).deq_items() == old(self).deq_items(),
            final(self).deq_bytes() == old(self).deq_bytes(),
            queue_step(*old(self), QueueOp::ResetPeak, *final(self)),
    {
        self.peak_bytes = self.depth_bytes();
    }
}

impl Default for QueueAccounting {
    fn default() -> (r: QueueAccounting)
        ensures
            r.enq_items() == 0,
            r.deq_items() == 0,
            r.enq_bytes() == 0,
            r.deq_bytes() == 0,
            r.peak() == 0,
    {
        QueueAccounting::new()
    }
}

/// Backlog severity of a depth against the watermarks.
pub open spec fn spec_backlog_level(depth: u64, soft: u64, hard: u64) -> u8 {
    if hard > 0 && depth >= hard {
        2
    } else if soft > 0 && depth >= soft {
        1
    } else {
        0
    }
}

/// Backlog severity for a channel depth against the configured watermarks:
/// `0` OK, `1` soft limit exceeded, `2` hard limit exceeded. A limit of `0`
/// disables that threshold; above the hard limit the answer is `2` even
/// when the hard limit is misconfigured below the soft one.
pub fn backlog_level(depth_bytes: u64, soft_limit_bytes: u64, hard_limit_bytes: u64) -> (r: u8)
    ensures
        r == spec_backlog_level(depth_bytes, soft_limit_bytes, hard_limit_bytes),
{
    if hard_limit_bytes > 0 && depth_bytes >= hard_limit_bytes {
        2
    } else if soft_limit_bytes > 0 && depth_bytes >= soft_limit_bytes {
        1
    } else {
        0
    }
}

/// After an enqueue the peak is at least the depth.
pub proof fn lemma_peak_covers_depth_after_enqueue(pre: QueueAccounting, post: QueueAccounting, bytes: u64)
    requires
        post.enq_items() == wrap_add(pre.enq_items(), 1),
        post.enq_bytes() == wrap_add(pre.enq_bytes(), bytes),
        post.deq_bytes() == pre.deq_bytes(),
        post.peak() == max_u64(pre.peak(), post.spec_depth_bytes()),
    ensures
        post.peak() >= post.spec_depth_bytes(),
        post.peak() >= pre.peak(),
{
}

/// Without counter wrap-around, dequeuing what was just enqueued restores
/// the depth: the gauge tracks channel occupancy exactly.
pub proof fn lemma_enqueue_dequeue_restores_depth(q: QueueAccounting, bytes: u64)
    requires
        q.enq_bytes() as nat + bytes as nat <= u64::MAX,
        q.deq_bytes() as nat + bytes as nat <= u64::MAX,
        q.deq_bytes() <= q.enq_bytes(),
    ensures
        sat_sub(wrap_add(q.enq_bytes(), bytes), wrap_add(q.deq_bytes(), bytes))
            == q.spec_depth_bytes(),
{
}

/// A higher watermark verdict needs a deeper (or equal) backlog: the level
/// is monotonic in the depth.
pub proof fn lemma_backlog_level_monotonic(d1: u64, d2: u64, soft: u64, hard: u64)
    requires
        d1 <= d2,
    ensures
        spec_backlog_level(d1, soft, hard) <= spec_backlog_level(d2, soft, hard),
{
}

/// One call on a queue gauge, as a law over a series of calls sees it.
#[derive(Debug, Clone, Copy)]
pub enum QueueOp {
    /// `on_enqueue(bytes)`
    Enqueue(u64),
    /// `on_dequeue(bytes)`
    Dequeue(u64),
    /// `reset_peak()`
    ResetPeak,
}

/// `post` is the gauge after the call `op` on `pre` (the calls' contracts).
pub open spec fn queue_step(pre: QueueAccounting, op: QueueOp, post: QueueAccounting) -> bool {
    match op {
        QueueOp::Enqueue(b) => {
            &&& post.enq_items() == wrap_add(pre.enq_items(), 1)
            &&& post.enq_bytes() == wrap_add(pre.enq_bytes(), b)
            &&& post.deq_items() == pre.deq_items()
            &&& post.deq_bytes() == pre.deq_bytes()
            &&& post.peak() == max_u64(pre.peak(), post.spec_depth_bytes())
        },
        QueueOp::Dequeue(b) => {
            &&& post.deq_items() == wrap_add(pre.deq_items(), 1)
            &&& post.deq_bytes() == wrap_add(pre.deq_bytes(), b)
            &&& post.enq_items() == pre.enq_items()
            &&& post.enq_bytes() == pre.enq_bytes()
            &&& post.peak() == pre.peak()
        },
        QueueOp::ResetPeak => {
            &&& post.peak() == pre.spec_depth_bytes()
            &&& post.enq_items() == pre.enq_items()
            &&& post.enq_bytes() == pre.enq_bytes()
            &&& post.deq_items() == pre.deq_items()
            &&& post.deq_bytes() == pre.deq_bytes()
        },
    }
}

/// A gauge as `new` makes it: every counter and the peak at zero.
pub open spec fn fresh_gauge(q: QueueAccounting) -> bool {
    &&& q.enq_items() == 0 && q.deq_items() == 0
    &&& q.enq_bytes() == 0 && q.deq_bytes() == 0
    &&& q.peak() == 0
}

/// `qs` are the gauges after each call of `ops`, starting from a new gauge:
/// `qs[0]` is what `new` returns and `qs[i + 1]` what the call `ops[i]`
/// (`on_enqueue`, `on_dequeue` or `reset_peak`, each of which ensures
/// `queue_step`) leaves of `qs[i]`.
pub open spec fn queue_run(qs: Seq<QueueAccounting>, ops: Seq<QueueOp>) -> bool {
    &&& qs.len() == ops.len() + 1
    &&& fresh_gauge(qs[0])
    &&& forall|i: int| 0 <= i < ops.len() ==> queue_step(#[trigger] qs[i], ops[i], qs[i + 1])
}

/// No byte counter of the run wraps around.
pub open spec fn run_fits(qs: Seq<QueueAccounting>, ops: Seq<QueueOp>) -> bool {
    forall|i: int|
        0 <= i < ops.len() ==> match #[trigger] ops[i] {
            QueueOp::Enqueue(b) => qs[i].enq_bytes() + b <= u64::MAX,
            QueueOp::Dequeue(b) => qs[i].deq_bytes() + b <= u64::MAX,
            QueueOp::ResetPeak => true,
        }
}

/// The position (in `qs`) of the gauge right after the last `reset_peak`
/// among the first `n` calls; 0 (the new gauge) when there is none.
pub open spec fn last_reset(ops: Seq<QueueOp>, n: int) -> int
    decreases n,
{
    if n <= 0 {
        0
    } else if ops[n - 1] is ResetPeak {
        n
    } else {
        last_reset(ops, n - 1)
    }
}

/// Over any series of calls from a new gauge, the peak after the first `n`
/// calls is the largest of the depth right after the last `reset_peak` (0
/// when there is none) and the depths right after each later enqueue; and
/// while no byte counter wraps, the peak is never below the current depth.
pub proof fn lemma_peak_over_series(qs: Seq<QueueAccounting>, ops: Seq<QueueOp>, n: int)
    requires
        queue_run(qs, ops),
        0 <= n <= ops.len(),
    ensures
        0 <= last_reset(ops, n) <= n,
        qs[n].peak() >= qs[last_reset(ops, n)].spec_depth_bytes(),
        forall|k: int|
            last_reset(ops, n) < k <= n && (#[trigger] ops[k - 1]) is Enqueue ==> qs[n].peak()
                >= qs[k].spec_depth_bytes(),
        qs[n].peak() == qs[last_reset(ops, n)].spec_depth_bytes() || exists|k: int|
            last_reset(ops, n) < k <= n && (#[trigger] ops[k - 1]) is Enqueue && qs[n].peak()
                == qs[k].spec_depth_bytes(),
        run_fits(qs, ops) ==> qs[n].peak() >= qs[n].spec_depth_bytes(),
    decreases n,
{
    if n > 0 {
        lemma_peak_over_series(qs, ops, n - 1);
        assert(queue_step(qs[n - 1], ops[n - 1], qs[n]));
        let r0 = last_reset(ops, n - 1);
        match ops[n - 1] {
            QueueOp::Enqueue(b) => {
                if qs[n - 1].peak() >= qs[n].spec_depth_bytes() {
                    if qs[n - 1].peak() != qs[r0].spec_depth_bytes() {
                        let k = choose|k: int|
                            r0 < k <= n - 1 && (#[trigger] ops[k - 1]) is Enqueue && qs[n - 1].peak()
                                == qs[k].spec_depth_bytes();
                        assert(r0 < k <= n && ops[k - 1] is Enqueue && qs[n].peak() == qs[k].spec_depth_bytes());
                    }
                } else {
                    assert(ops[n - 1] is Enqueue && qs[n].peak() == qs[n].spec_depth_bytes());
                }
            },
            QueueOp::Dequeue(b) => {
                if qs[n - 1].peak() != qs[r0].spec_depth_bytes() {
                    let k = choose|k: int|
                        r0 < k <= n - 1 && (#[trigger] ops[k - 1]) is Enqueue && qs[n - 1].peak()
                            == qs[k].spec_depth_bytes();
                    assert(r0 < k <= n && ops[k - 1] is Enqueue && qs[n].peak() == qs[k].spec_depth_bytes());
                }
                if run_fits(qs, ops) {
                    assert(qs[n - 1].deq_bytes() + b <= u64::MAX);
                }
            },
            QueueOp::ResetPeak => {},
        }
    }
}

} // verus!
