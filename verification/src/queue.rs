//! The trace-collection queue: one entry per completed execution path,
//! pushed by the worker pool and drained by the single session writer.
//! The storage is crossbeam's `SegQueue`, a lock-free FIFO queue built for
//! concurrent producers; its contents are modeled as the sequence of
//! entries in arrival order.

use vstd::prelude::*;

verus! {

/// The result of one fully explored execution path: either a completed
/// path, with its assertion-failure flag and its event trace serialized
/// into a single byte payload — the engine hands events most recent
/// first, so the producer restores chronological order (`reverse_events`)
/// and then serializes the whole list once — or a per-path error message.
pub enum PathResult {
    Completed { outcome: bool, trace: Vec<u8> },
    Failed { message: Vec<u8> },
}

/// The mathematical shape of a path result.
pub enum PathResultView {
    Completed { outcome: bool, trace: Seq<u8> },
    Failed { message: Seq<u8> },
}

impl View for PathResult {
    type V = PathResultView;

    open spec fn view(&self) -> PathResultView {
        match self {
            PathResult::Completed { outcome, trace } => PathResultView::Completed {
                outcome: *outcome,
                trace: trace@,
            },
            PathResult::Failed { message } => PathResultView::Failed { message: message@ },
        }
    }
}

#[verifier::external_type_specification]
#[verifier::external_body]
#[verifier::reject_recursive_types(T)]
pub struct ExSegQueue<T>(crossbeam::queue::SegQueue<T>);

/// The entries a `SegQueue` of path results holds, oldest first.
pub uninterp spec fn queue_entries(q: crossbeam::queue::SegQueue<PathResult>) -> Seq<PathResult>;

/// The queue of per-path results for one `execute` request: created fresh,
/// filled by the worker pool, drained to exhaustion by the session writer.
pub struct TraceQueue {
    pub inner: crossbeam::queue::SegQueue<PathResult>,
}

impl TraceQueue {
    /// The entries currently queued, oldest first.
    pub open spec fn entries(self) -> Seq<PathResult> {
        queue_entries(self.inner)
    }

    /// Relies on crossbeam's `SegQueue::new`: creates an empty queue.
    #[verifier::external_body]
    pub fn new() -> (q: TraceQueue)
        ensures
            queue_entries(q.inner) == Seq::<PathResult>::empty(),
    {
        TraceQueue { inner: crossbeam::queue::SegQueue::new() }
    }

    /// Relies on crossbeam's `SegQueue::push`: appends one element at the
    /// tail of the queue.
    #[verifier::external_body]
    pub fn push(&mut self, entry: PathResult)
        ensures
            queue_entries(final(self).inner) == queue_entries(old(self).inner).push(entry),
    {
        self.inner.push(entry);
    }

    /// Relies on crossbeam's `SegQueue::pop`: removes and returns the
    /// element at the head of the queue, or `None` when the queue is
    /// empty.
    #[verifier::external_body]
    pub fn pop(&mut self) -> (r: Option<PathResult>)
        ensures
            queue_entries(old(self).inner).len() == 0 ==> r is None && queue_entries(
                final(self).inner,
            ) == queue_entries(old(self).inner),
            queue_entries(old(self).inner).len() > 0 ==> r == Some(
                queue_entries(old(self).inner).first(),
            ) && queue_entries(final(self).inner) == queue_entries(old(self).inner).drop_first(),
    {
        self.inner.pop()
    }
}

} // verus!
