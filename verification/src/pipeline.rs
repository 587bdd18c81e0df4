//! The trace-collection pipeline: drain the queue of per-path results to
//! exhaustion, turning each completed path into one `Trace` response and
//! closing the stream with `EndTraces` — unless an entry is a per-path
//! error, in which case draining stops at once and that error becomes the
//! pipeline's result. The engine accumulates each path's events most
//! recent first; `reverse_events` restores chronological order before the
//! producer's single serialization call renders the trace payload.

use vstd::prelude::*;
use crate::queue::{PathResult, PathResultView, TraceQueue};
use crate::response::{response_views, Response, ResponseView};

verus! {

/// Restore a path's event list to chronological order: the engine hands
/// it most recent first. The producer applies this before the one
/// serialization call that renders the whole trace.
#[verifier::loop_isolation(false)]
pub fn reverse_events<T>(events: Vec<T>) -> (r: Vec<T>)
    ensures
        r@ == events@.reverse(),
{
    let ghost orig = events@;
    let mut events = events;
    let mut r: Vec<T> = Vec::new();
    proof {
        assert(r@ =~= orig.subrange(orig.len() as int, orig.len() as int).reverse());
    }
    loop
        invariant
            events@.len() <= orig.len(),
            events@ == orig.take(events@.len() as int),
            r@ == orig.subrange(events@.len() as int, orig.len() as int).reverse(),
        decreases events@.len(),
    {
        let ghost k = events@.len() as int;
        match events.pop() {
            Some(e) => {
                r.push(e);
                proof {
                    assert(events@ =~= orig.take(k - 1));
                    assert(r@ =~= orig.subrange(k - 1, orig.len() as int).reverse());
                }
            },
            None => {
                proof {
                    assert(orig.subrange(0, orig.len() as int) =~= orig);
                }
                return r;
            },
        }
    }
}

/// Whether a path result is a completed path (not a per-path error).
pub open spec fn is_completed(p: PathResult) -> bool {
    p@ matches PathResultView::Completed { .. }
}

/// The `Trace` response one completed path becomes: its outcome flag and
/// its serialized trace payload.
pub open spec fn trace_view_of(p: PathResult) -> ResponseView {
    match p@ {
        PathResultView::Completed { outcome, trace } => ResponseView::Trace(outcome, trace),
        PathResultView::Failed { message } => ResponseView::Error,
    }
}

/// What draining a queue holding `entries` emits: one `Trace` per
/// completed path up to the first error, then either `EndTraces` (no
/// error seen) or nothing further, with the first error's message as the
/// pipeline's verdict.
pub open spec fn drain_transcript(entries: Seq<PathResult>) -> (Seq<ResponseView>, Option<
    Seq<u8>,
>)
    decreases entries.len(),
{
    if entries.len() == 0 {
        (seq![ResponseView::EndTraces], None)
    } else {
        match entries.first()@ {
            PathResultView::Failed { message } => (Seq::<ResponseView>::empty(), Some(message)),
            PathResultView::Completed { .. } => {
                let rest = drain_transcript(entries.drop_first());
                (seq![trace_view_of(entries.first())] + rest.0, rest.1)
            },
        }
    }
}

/// What draining leaves on the queue: nothing, unless a per-path error
/// stopped the drain, in which case everything after that error stays.
pub open spec fn drain_leftover(entries: Seq<PathResult>) -> Seq<PathResult>
    decreases entries.len(),
{
    if entries.len() == 0 {
        Seq::empty()
    } else {
        match entries.first()@ {
            PathResultView::Failed { .. } => entries.drop_first(),
            PathResultView::Completed { .. } => drain_leftover(entries.drop_first()),
        }
    }
}

/// One step of the drain, so the driver can put each response on the
/// wire as soon as it is decided instead of buffering the whole stream.
pub enum DrainStep {
    /// One completed path's `Trace` response; the drain goes on.
    Trace(Response),
    /// The queue is exhausted with no error seen: the closing
    /// `EndTraces`; the drain is complete.
    End(Response),
    /// The first per-path error: the drain stops, surfacing this
    /// message, and whatever is still queued is discarded unread.
    Fail(Vec<u8>),
}

/// Pop one entry and decide the next step of the trace stream: a `Trace`
/// for a completed path, the first error's message for a failed one, and
/// the closing `EndTraces` once the queue is exhausted.
pub fn drain_step(queue: &mut TraceQueue) -> (r: DrainStep)
    ensures
        old(queue).entries().len() == 0 ==> (r matches DrainStep::End(resp) && resp@
            == ResponseView::EndTraces) && final(queue).entries() == old(queue).entries(),
        old(queue).entries().len() > 0 ==> final(queue).entries() == old(
            queue,
        ).entries().drop_first() && (match old(queue).entries().first()@ {
            PathResultView::Completed { .. } => r matches DrainStep::Trace(resp) && resp@
                == trace_view_of(old(queue).entries().first()),
            PathResultView::Failed { message } => r matches DrainStep::Fail(m) && m@ == message,
        }),
{
    match queue.pop() {
        None => DrainStep::End(Response::EndTraces),
        Some(PathResult::Completed { outcome, trace }) => DrainStep::Trace(
            Response::Trace(outcome, trace),
        ),
        Some(PathResult::Failed { message }) => DrainStep::Fail(message),
    }
}

/// Drain the queue to exhaustion, collecting the streamed responses for
/// one `execute` request: `StartTraces`, one `Trace` per completed path,
/// and `EndTraces` when every path completed; on the first per-path error
/// the drain stops and the error message is returned instead.
#[verifier::loop_isolation(false)]
pub fn execute_opcode(queue: &mut TraceQueue) -> (r: (Vec<Response>, Option<Vec<u8>>))
    ensures
        ({
            let t = drain_transcript(old(queue).entries());
            &&& response_views(r.0@) == seq![ResponseView::StartTraces] + t.0
            &&& (match r.1 {
                Some(m) => t.1 == Some(m@),
                None => t.1 is None,
            })
            &&& final(queue).entries() == drain_leftover(old(queue).entries())
        }),
{
    let ghost entries0 = queue.entries();
    let mut out: Vec<Response> = Vec::new();
    out.push(Response::StartTraces);
    proof {
        assert(response_views(out@) =~= seq![ResponseView::StartTraces]);
    }
    loop
        invariant
            drain_transcript(entries0).0 =~= response_views(out@).drop_first()
                + drain_transcript(queue.entries()).0,
            drain_transcript(entries0).1 == drain_transcript(queue.entries()).1,
            drain_leftover(entries0) == drain_leftover(queue.entries()),
            out@.len() >= 1,
            response_views(out@).first() == ResponseView::StartTraces,
        decreases queue.entries().len(),
    {
        let ghost before = out@;
        match drain_step(queue) {
            DrainStep::End(resp) => {
                out.push(resp);
                proof {
                    assert(response_views(out@).drop_first() =~= response_views(
                        before,
                    ).drop_first().push(ResponseView::EndTraces));
                    assert(response_views(out@) =~= seq![ResponseView::StartTraces]
                        + drain_transcript(entries0).0);
                }
                return (out, None);
            },
            DrainStep::Fail(message) => {
                proof {
                    assert(response_views(out@) =~= seq![ResponseView::StartTraces]
                        + drain_transcript(entries0).0);
                }
                return (out, Some(message));
            },
            DrainStep::Trace(resp) => {
                out.push(resp);
                proof {
                    assert(response_views(out@) =~= response_views(before).push(resp@));
                    assert(response_views(out@).drop_first() =~= response_views(
                        before,
                    ).drop_first().push(resp@));
                    assert(response_views(out@).drop_first() + drain_transcript(
                        queue.entries(),
                    ).0 =~= response_views(before).drop_first() + (seq![resp@]
                        + drain_transcript(queue.entries()).0));
                }
            },
        }
    }
}

/// The `Trace` responses of a sequence of completed paths, in order.
pub open spec fn trace_views(entries: Seq<PathResult>) -> Seq<ResponseView> {
    entries.map_values(|p: PathResult| trace_view_of(p))
}

/// When every path completes without error, the drain emits exactly one
/// `Trace` per path, in queue order, each with its own outcome flag and
/// serialized trace payload, and then `EndTraces`.
pub proof fn lemma_all_completed_drain(entries: Seq<PathResult>)
    requires
        forall|i: int| 0 <= i < entries.len() ==> is_completed(#[trigger] entries[i]),
    ensures
        drain_transcript(entries).0 =~= trace_views(entries) + seq![ResponseView::EndTraces],
        drain_transcript(entries).1 is None,
    decreases entries.len(),
{
    if entries.len() == 0 {
    } else {
        let t = entries.drop_first();
        assert(forall|i: int| 0 <= i < t.len() ==> is_completed(#[trigger] t[i]));
        lemma_all_completed_drain(t);
        assert(trace_views(t) =~= trace_views(entries).drop_first());
    }
}

/// When some path fails, the drain emits one `Trace` per completed path
/// before the first failure, then stops with that failure's message, and
/// `EndTraces` never appears.
pub proof fn lemma_first_failure_drain(entries: Seq<PathResult>, k: int, message: Seq<u8>)
    requires
        0 <= k < entries.len(),
        entries[k]@ == (PathResultView::Failed { message }),
        forall|i: int| 0 <= i < k ==> is_completed(#[trigger] entries[i]),
    ensures
        drain_transcript(entries).0 =~= trace_views(entries.take(k)),
        drain_transcript(entries).1 == Some(message),
        !(seq![ResponseView::StartTraces] + drain_transcript(entries).0).contains(
            ResponseView::EndTraces,
        ),
    decreases k,
{
    if k == 0 {
        assert(drain_transcript(entries).0 =~= trace_views(entries.take(0)));
    } else {
        let t = entries.drop_first();
        lemma_first_failure_drain(t, k - 1, message);
        assert(trace_views(t.take(k - 1)) =~= trace_views(entries.take(k)).drop_first());
    }
    let wire = seq![ResponseView::StartTraces] + drain_transcript(entries).0;
    assert forall|i: int| 0 <= i < wire.len() implies wire[i] != ResponseView::EndTraces by {
        if i > 0 {
            assert(wire[i] == trace_views(entries.take(k))[i - 1]);
            assert(trace_views(entries.take(k))[i - 1] == trace_view_of(entries.take(k)[i - 1]));
        }
    }
}

} // verus!
