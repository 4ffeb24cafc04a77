//! Many connections at once, and the supervisor beside them: what holds of
//! the service as a whole.
//!
//! The workers share nothing. The model below keeps them in one map and lets
//! the driver's reports arrive in any order, as threads would deliver them;
//! the laws say that each connection sees only its own bytes, and that the
//! end of one worker, in good order or not, costs no other connection
//! anything.

use crate::echo::{worker_init, worker_step, ActionModel, CloseReason, EventModel, WorkerModel};
use crate::session::{
    echo_script, lemma_echo_fidelity, payload, worker_run, worker_sent,
};
use crate::supervisor::{
    supervisor_init, supervisor_step, Directive, Lifecycle, ListenerEvent, SupervisorModel,
};
use vstd::prelude::*;

verus! {

/// What the driver reports of one connection.
pub struct Report {
    /// Which connection.
    pub conn: nat,
    /// What happened on it.
    pub event: EventModel,
}

/// The workers after the worker of `r.conn` has taken `r.event`, and what
/// that worker asks for.
pub open spec fn service_step(workers: Map<nat, WorkerModel>, r: Report) -> (
    Map<nat, WorkerModel>,
    ActionModel,
) {
    let (w, asked) = worker_step(workers[r.conn], r.event);
    (workers.insert(r.conn, w), asked)
}

/// The workers after every report of `trace`, in the order of arrival.
pub open spec fn service_run(workers: Map<nat, WorkerModel>, trace: Seq<Report>) -> Map<
    nat,
    WorkerModel,
>
    decreases trace.len(),
{
    if trace.len() == 0 {
        workers
    } else {
        service_step(service_run(workers, trace.drop_last()), trace.last()).0
    }
}

/// Every byte handed out for writing to connection `conn` over `trace`, in
/// order: what that peer gets back.
pub open spec fn delivered(workers: Map<nat, WorkerModel>, trace: Seq<Report>, conn: nat) -> Seq<
    u8,
>
    decreases trace.len(),
{
    if trace.len() == 0 {
        Seq::empty()
    } else {
        let before = service_run(workers, trace.drop_last());
        delivered(workers, trace.drop_last(), conn) + if trace.last().conn == conn {
            payload(service_step(before, trace.last()).1)
        } else {
            Seq::empty()
        }
    }
}

/// The events of `trace` that concern connection `conn`, in order.
pub open spec fn reports_of(trace: Seq<Report>, conn: nat) -> Seq<EventModel>
    decreases trace.len(),
{
    if trace.len() == 0 {
        Seq::empty()
    } else if trace.last().conn == conn {
        reports_of(trace.drop_last(), conn).push(trace.last().event)
    } else {
        reports_of(trace.drop_last(), conn)
    }
}

/// `trace` with every report of connection `conn` taken out.
pub open spec fn without(trace: Seq<Report>, conn: nat) -> Seq<Report>
    decreases trace.len(),
{
    if trace.len() == 0 {
        Seq::empty()
    } else if trace.last().conn == conn {
        without(trace.drop_last(), conn)
    } else {
        without(trace.drop_last(), conn).push(trace.last())
    }
}

/// A report changes the worker of its own connection and no other.
pub proof fn lemma_step_touches_one(workers: Map<nat, WorkerModel>, r: Report, other: nat)
    requires
        other != r.conn,
    ensures
        service_step(workers, r).0[other] == workers[other],
        service_step(workers, r).0.dom().contains(other) == workers.dom().contains(other),
{
}

/// Each worker lives in a world of its own. However the reports of many
/// connections interleave, the worker of `conn` ends where it would have
/// ended alone on its own reports, and its peer gets back what it would have
/// got back alone.
pub proof fn lemma_worker_alone(workers: Map<nat, WorkerModel>, trace: Seq<Report>, conn: nat)
    ensures
        service_run(workers, trace)[conn] == worker_run(workers[conn], reports_of(trace, conn)),
        delivered(workers, trace, conn) == worker_sent(workers[conn], reports_of(trace, conn)),
    decreases trace.len(),
{
    if trace.len() > 0 {
        let front = trace.drop_last();
        lemma_worker_alone(workers, front, conn);
        if trace.last().conn == conn {
            let own = reports_of(trace, conn);
            assert(own.drop_last() =~= reports_of(front, conn));
            assert(own.last() == trace.last().event);
        } else {
            assert(delivered(workers, trace, conn) =~= delivered(workers, front, conn));
        }
    }
}

/// Taking one connection's reports out of a trace leaves every other
/// connection's reports as they were.
pub proof fn lemma_without_keeps_others(trace: Seq<Report>, gone: nat, conn: nat)
    requires
        gone != conn,
    ensures
        reports_of(without(trace, gone), conn) == reports_of(trace, conn),
    decreases trace.len(),
{
    if trace.len() > 0 {
        lemma_without_keeps_others(trace.drop_last(), gone, conn);
        if trace.last().conn != gone {
            let kept = without(trace, gone);
            assert(kept.drop_last() =~= without(trace.drop_last(), gone));
            assert(kept.last() == trace.last());
        }
    }
}

/// Echo isolation. Of two connections served at once, neither gets a byte
/// of the other: what `c1` gets back, and where its worker ends, is the same
/// with every report of `c2` taken out of the trace.
pub proof fn lemma_echo_isolation(
    workers: Map<nat, WorkerModel>,
    trace: Seq<Report>,
    c1: nat,
    c2: nat,
)
    requires
        c1 != c2,
    ensures
        delivered(workers, trace, c1) == delivered(workers, without(trace, c2), c1),
        service_run(workers, trace)[c1] == service_run(workers, without(trace, c2))[c1],
{
    lemma_worker_alone(workers, trace, c1);
    lemma_worker_alone(workers, without(trace, c2), c1);
    lemma_without_keeps_others(trace, c2, c1);
}

/// Echo fidelity among many. A connection on which nothing fails gets back
/// exactly what it sent, whatever happens on the other connections in the
/// meantime and however the reports interleave.
pub proof fn lemma_concurrent_fidelity(
    workers: Map<nat, WorkerModel>,
    trace: Seq<Report>,
    conn: nat,
    capacity: nat,
    chunks: Seq<Seq<u8>>,
)
    requires
        capacity > 0,
        workers[conn] == worker_init(capacity),
        reports_of(trace, conn) == echo_script(chunks),
        forall|i: int| 0 <= i < chunks.len() ==> 0 < (#[trigger] chunks[i]).len() <= capacity,
    ensures
        delivered(workers, trace, conn) == chunks.flatten(),
        service_run(workers, trace)[conn].phase == crate::echo::Phase::Closed(
            CloseReason::PeerClosed,
        ),
{
    lemma_worker_alone(workers, trace, conn);
    lemma_echo_fidelity(capacity, chunks);
}

/// The supervisor after every event of `events`, in order.
pub open spec fn supervisor_run(s: SupervisorModel, events: Seq<ListenerEvent>) -> SupervisorModel
    decreases events.len(),
{
    if events.len() == 0 {
        s
    } else {
        supervisor_step(supervisor_run(s, events.drop_last()), events.last()).0
    }
}

/// A step keeps the invariant of the supervisor, and its limit.
pub proof fn lemma_supervisor_step_keeps_inv(s: SupervisorModel, e: ListenerEvent)
    requires
        s.inv(),
    ensures
        supervisor_step(s, e).0.inv(),
        supervisor_step(s, e).0.limit == s.limit,
{
}

/// Admission control. Whatever the driver reports, in whatever order, the
/// workers that are live never exceed the limit.
pub proof fn lemma_admission_bounded(limit: nat, events: Seq<ListenerEvent>)
    ensures
        supervisor_run(supervisor_init(limit), events).inv(),
        supervisor_run(supervisor_init(limit), events).limit == limit,
        supervisor_run(supervisor_init(limit), events).live <= limit,
    decreases events.len(),
{
    if events.len() > 0 {
        lemma_admission_bounded(limit, events.drop_last());
        lemma_supervisor_step_keeps_inv(
            supervisor_run(supervisor_init(limit), events.drop_last()),
            events.last(),
        );
    }
}

/// A running service is ended on purpose only: by a request to shut down or
/// by the loss of the listener. Nothing else that can be reported takes it
/// out of `Running`, and until then the driver is never told to exit.
pub proof fn lemma_running_ends_on_purpose(s: SupervisorModel, e: ListenerEvent)
    requires
        s.phase == Lifecycle::Running,
        e != ListenerEvent::ShutdownRequested,
        e != ListenerEvent::ListenerLost,
    ensures
        supervisor_step(s, e).0.phase == Lifecycle::Running,
        !(supervisor_step(s, e).1 is Exit),
        supervisor_step(s, e).1 != Directive::Drain,
{
}

/// A service that is shutting down or has stopped serves no connection and
/// never runs again; once stopped, its exit code stays.
pub proof fn lemma_stopping_is_final(s: SupervisorModel, e: ListenerEvent)
    requires
        s.phase == Lifecycle::ShuttingDown || s.phase is Stopped,
    ensures
        supervisor_step(s, e).1 != Directive::Serve,
        supervisor_step(s, e).1 != Directive::Accept,
        supervisor_step(s, e).0.phase == Lifecycle::ShuttingDown || supervisor_step(
            s,
            e,
        ).0.phase is Stopped,
        s.phase is Stopped ==> supervisor_step(s, e).0 == s,
{
}

/// Fault containment. When a worker of a running service exits, for whatever
/// reason, the service keeps running with one worker less, and the next
/// connection is served: by a fresh worker, which owes nothing to the one
/// that ended.
pub proof fn lemma_fault_containment(s: SupervisorModel, reason: CloseReason)
    requires
        s.inv(),
        s.phase == Lifecycle::Running,
        s.live > 0,
    ensures
        ({
            let after = supervisor_step(s, ListenerEvent::WorkerExited(reason)).0;
            &&& after.phase == Lifecycle::Running
            &&& after.live == s.live - 1
            &&& supervisor_step(after, ListenerEvent::Accepted).1 == Directive::Serve
            &&& supervisor_step(after, ListenerEvent::Accepted).0.phase == Lifecycle::Running
        }),
{
}

/// Orderly close. A peer that connects and closes at once gets nothing
/// back, its worker ends in good order on the first read, and the service
/// goes on to serve the next connection.
pub proof fn lemma_orderly_close(s: SupervisorModel, capacity: nat)
    requires
        s.inv(),
        s.phase == Lifecycle::Running,
        s.live < s.limit,
    ensures
        ({
            let served = supervisor_step(s, ListenerEvent::Accepted);
            let (worker, asked) = worker_step(
                worker_init(capacity),
                EventModel::Read(Seq::empty()),
            );
            let after = supervisor_step(
                served.0,
                ListenerEvent::WorkerExited(CloseReason::PeerClosed),
            ).0;
            &&& served.1 == Directive::Serve
            &&& asked == ActionModel::Close(CloseReason::PeerClosed)
            &&& payload(asked).len() == 0
            &&& worker.echoed.len() == 0
            &&& after == s
            &&& supervisor_step(after, ListenerEvent::Accepted).1 == Directive::Serve
        }),
{
}

} // verus!
