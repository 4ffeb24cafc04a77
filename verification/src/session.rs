//! Whole sessions of one echo worker, and what holds of all of them.

use crate::echo::{worker_init, worker_step, ActionModel, CloseReason, EventModel, Phase, WorkerModel};
use vstd::prelude::*;

verus! {

/// The bytes an action hands out for writing.
pub open spec fn payload(a: ActionModel) -> Seq<u8> {
    match a {
        ActionModel::Write(bytes) => bytes,
        _ => Seq::empty(),
    }
}

/// The worker `w` after it has taken every event of `events`, in order.
pub open spec fn worker_run(w: WorkerModel, events: Seq<EventModel>) -> WorkerModel
    decreases events.len(),
{
    if events.len() == 0 {
        w
    } else {
        worker_step(worker_run(w, events.drop_last()), events.last()).0
    }
}

/// Every byte that `w` hands out for writing while it takes `events`, in
/// order: what the peer gets back when each write is carried out.
pub open spec fn worker_sent(w: WorkerModel, events: Seq<EventModel>) -> Seq<u8>
    decreases events.len(),
{
    if events.len() == 0 {
        Seq::empty()
    } else {
        worker_sent(w, events.drop_last()) + payload(
            worker_step(worker_run(w, events.drop_last()), events.last()).1,
        )
    }
}

/// How often `w` asks for its connection to be released while it takes
/// `events`.
pub open spec fn worker_closes(w: WorkerModel, events: Seq<EventModel>) -> nat
    decreases events.len(),
{
    if events.len() == 0 {
        0
    } else {
        let asked = worker_step(worker_run(w, events.drop_last()), events.last()).1;
        worker_closes(w, events.drop_last()) + if asked is Close {
            1nat
        } else {
            0nat
        }
    }
}

/// What the driver reports over a session in which nothing fails: each chunk
/// of `chunks` is read and then written, and the read after the last finds
/// the end of the stream.
pub open spec fn echo_script(chunks: Seq<Seq<u8>>) -> Seq<EventModel>
    decreases chunks.len(),
{
    if chunks.len() == 0 {
        seq![EventModel::Read(Seq::empty())]
    } else {
        seq![EventModel::Read(chunks.first()), EventModel::Written] + echo_script(
            chunks.drop_first(),
        )
    }
}

/// Taking `a` and then `b` is taking `a + b`.
pub proof fn lemma_run_append(w: WorkerModel, a: Seq<EventModel>, b: Seq<EventModel>)
    ensures
        worker_run(w, a + b) == worker_run(worker_run(w, a), b),
        worker_sent(w, a + b) == worker_sent(w, a) + worker_sent(worker_run(w, a), b),
        worker_closes(w, a + b) == worker_closes(w, a) + worker_closes(worker_run(w, a), b),
    decreases b.len(),
{
    if b.len() == 0 {
        assert(a + b =~= a);
    } else {
        assert((a + b).drop_last() =~= a + b.drop_last());
        assert((a + b).last() == b.last());
        lemma_run_append(w, a, b.drop_last());
    }
}

/// A step keeps the invariant of a worker.
pub proof fn lemma_step_keeps_inv(w: WorkerModel, e: EventModel)
    requires
        w.inv(),
    ensures
        worker_step(w, e).0.inv(),
        worker_step(w, e).0.capacity == w.capacity,
{
}

/// Every worker that started fresh satisfies the invariant, whatever it was
/// told since.
pub proof fn lemma_run_keeps_inv(w: WorkerModel, events: Seq<EventModel>)
    requires
        w.inv(),
    ensures
        worker_run(w, events).inv(),
        worker_run(w, events).capacity == w.capacity,
    decreases events.len(),
{
    if events.len() > 0 {
        lemma_run_keeps_inv(w, events.drop_last());
        lemma_step_keeps_inv(worker_run(w, events.drop_last()), events.last());
    }
}

/// Nothing but the peer's own bytes goes back to the peer. Whatever the
/// driver reports, in whatever order, the bytes handed out for writing are
/// exactly the bytes taken from the peer, in the order they came; and the
/// bytes whose write was confirmed are those but for the chunk in flight.
pub proof fn lemma_sent_is_received(capacity: nat, events: Seq<EventModel>)
    requires
        capacity > 0,
    ensures
        ({
            let end = worker_run(worker_init(capacity), events);
            &&& worker_sent(worker_init(capacity), events) == end.received
            &&& end.received == end.echoed + end.pending
        }),
    decreases events.len(),
{
    let start = worker_init(capacity);
    assert(start.received =~= start.echoed + start.pending);
    lemma_run_keeps_inv(start, events);
    if events.len() > 0 {
        lemma_sent_is_received(capacity, events.drop_last());
        lemma_run_keeps_inv(start, events.drop_last());
        let before = worker_run(start, events.drop_last());
        let (after, asked) = worker_step(before, events.last());
        assert(after.received =~= before.received + payload(asked));
    } else {
        assert(worker_sent(start, events) =~= start.received);
    }
}

/// A connection is released exactly once. Over any session the worker asks
/// for at most one release, and it has asked for one exactly when it is
/// closed.
pub proof fn lemma_closes_once(capacity: nat, events: Seq<EventModel>)
    ensures
        ({
            let end = worker_run(worker_init(capacity), events);
            let closes = worker_closes(worker_init(capacity), events);
            if end.phase is Closed {
                closes == 1
            } else {
                closes == 0
            }
        }),
    decreases events.len(),
{
    if events.len() > 0 {
        lemma_closes_once(capacity, events.drop_last());
    }
}

/// Echo fidelity. When nothing fails, the peer gets back exactly what it
/// sent, byte for byte and in order, however the stream was cut into chunks
/// and whatever the bytes are; and the session ends in good order.
pub proof fn lemma_echo_fidelity(capacity: nat, chunks: Seq<Seq<u8>>)
    requires
        capacity > 0,
        forall|i: int| 0 <= i < chunks.len() ==> 0 < (#[trigger] chunks[i]).len() <= capacity,
    ensures
        ({
            let start = worker_init(capacity);
            let end = worker_run(start, echo_script(chunks));
            &&& worker_sent(start, echo_script(chunks)) == chunks.flatten()
            &&& end.phase == Phase::Closed(CloseReason::PeerClosed)
            &&& end.received == chunks.flatten()
            &&& end.echoed == chunks.flatten()
            &&& worker_closes(start, echo_script(chunks)) == 1
        }),
{
    let start = worker_init(capacity);
    assert(start.received =~= start.echoed + start.pending);
    lemma_script_from(start, chunks);
    lemma_sent_is_received(capacity, echo_script(chunks));
    lemma_closes_once(capacity, echo_script(chunks));
    assert(start.received + chunks.flatten() =~= chunks.flatten());
    let end = worker_run(start, echo_script(chunks));
    assert(end.echoed + end.pending =~= end.echoed);
}

/// A worker that waits for a read takes a whole script: it ends closed in
/// good order, having received the chunks on top of what it had.
proof fn lemma_script_from(w: WorkerModel, chunks: Seq<Seq<u8>>)
    requires
        w.inv(),
        w.phase == Phase::AwaitingRead,
        forall|i: int| 0 <= i < chunks.len() ==> 0 < (#[trigger] chunks[i]).len() <= w.capacity,
    ensures
        ({
            let end = worker_run(w, echo_script(chunks));
            &&& end.phase == Phase::Closed(CloseReason::PeerClosed)
            &&& end.received == w.received + chunks.flatten()
            &&& end.pending.len() == 0
        }),
    decreases chunks.len(),
{
    if chunks.len() == 0 {
        let script = echo_script(chunks);
        assert(script.drop_last() =~= Seq::<EventModel>::empty());
        assert(worker_run(w, script.drop_last()) == w);
        assert(w.received + chunks.flatten() =~= w.received);
    } else {
        let head = seq![EventModel::Read(chunks.first()), EventModel::Written];
        let rest = chunks.drop_first();
        assert(0 < chunks[0].len() <= w.capacity);
        assert(head.drop_last() =~= seq![EventModel::Read(chunks.first())]);
        assert(head.drop_last().drop_last() =~= Seq::<EventModel>::empty());
        assert(worker_run(w, head.drop_last().drop_last()) == w);
        let w1 = worker_step(w, EventModel::Read(chunks.first())).0;
        assert(worker_run(w, head.drop_last()) == w1);
        let w2 = worker_step(w1, EventModel::Written).0;
        assert(worker_run(w, head) == w2);
        assert(w2.echoed + w2.pending =~= w2.echoed);
        assert(w2.inv());
        assert forall|i: int| 0 <= i < rest.len() implies 0 < (#[trigger] rest[i]).len()
            <= w2.capacity by {
            assert(rest[i] == chunks[i + 1]);
        }
        lemma_script_from(w2, rest);
        lemma_run_append(w, head, echo_script(rest));
        assert(w.received + chunks.flatten() =~= w2.received + rest.flatten());
    }
}

} // verus!
