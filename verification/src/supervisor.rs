//! The accept loop's decisions: admission of connections and the service's
//! life cycle.
//!
//! The supervisor never blocks and never touches a socket. The driver binds,
//! accepts, spawns and waits, reports each outcome as a [`ListenerEvent`],
//! and carries out the [`Directive`] it gets back. Everything the supervisor
//! decides is stated over [`SupervisorModel`] and [`supervisor_step`].

use crate::echo::CloseReason;
use vstd::prelude::*;

verus! {

/// Exit code of a service that was shut down on request.
pub const EXIT_OK: i32 = 0;

/// Exit code of a service that could not bind, or lost its listener.
pub const EXIT_FAILURE: i32 = 1;

/// Where the service is in its life.
#[derive(Clone, Copy, Debug, PartialEq, Eq, Structural)]
pub enum Lifecycle {
    /// The listener is not bound yet.
    Starting,
    /// Connections are accepted and served.
    Running,
    /// No connection is accepted any more; workers in flight may finish.
    ShuttingDown,
    /// The service has ended, with this exit code.
    Stopped(i32),
}

/// What the driver reports to the supervisor.
#[derive(Clone, Copy, Debug, PartialEq, Eq, Structural)]
pub enum ListenerEvent {
    /// The listener was bound to its address.
    Bound,
    /// The listener could not be bound.
    BindFailed,
    /// The listener produced a connection.
    Accepted,
    /// Accepting a connection failed, and the listener is still usable.
    AcceptFailed,
    /// The listener itself is closed or invalid.
    ListenerLost,
    /// A worker released its connection, for this reason.
    WorkerExited(CloseReason),
    /// The operator asked the service to stop.
    ShutdownRequested,
    /// The time granted to workers in flight is over.
    GraceExpired,
}

/// What the supervisor tells the driver to do.
#[derive(Clone, Copy, Debug, PartialEq, Eq, Structural)]
pub enum Directive {
    /// Wait for the next connection.
    Accept,
    /// Hand the connection just accepted to a new worker, and accept again.
    Serve,
    /// Close the connection just accepted unserved, and accept again while
    /// the service runs.
    Refuse,
    /// Stop accepting, and report each worker that exits, or the end of the
    /// grace period.
    Drain,
    /// Close every connection that is still open and end the process with
    /// this exit code.
    Exit(i32),
    /// Nothing new: carry on as before.
    Nothing,
}

/// A supervisor as a mathematical value.
pub struct SupervisorModel {
    pub phase: Lifecycle,
    /// The most workers that may be live at once.
    pub limit: nat,
    /// The workers that were started and have not exited.
    pub live: nat,
}

impl SupervisorModel {
    /// What holds of every supervisor: admission keeps the live workers
    /// within the limit, and a stopped service has an exit code of its own.
    pub open spec fn inv(self) -> bool {
        &&& self.live <= self.limit
        &&& self.phase matches Lifecycle::Stopped(code) ==> code == EXIT_OK || code
            == EXIT_FAILURE
    }
}

/// A supervisor before the listener is bound.
pub open spec fn supervisor_init(limit: nat) -> SupervisorModel {
    SupervisorModel { phase: Lifecycle::Starting, limit, live: 0 }
}

/// The supervisor `s` stopped with `code`, and the directive that says so.
pub open spec fn supervisor_stop(s: SupervisorModel, code: i32) -> (SupervisorModel, Directive) {
    (SupervisorModel { phase: Lifecycle::Stopped(code), ..s }, Directive::Exit(code))
}

/// One decision of the supervisor: the state after `e`, and the directive.
pub open spec fn supervisor_step(s: SupervisorModel, e: ListenerEvent) -> (
    SupervisorModel,
    Directive,
) {
    match s.phase {
        Lifecycle::Starting => match e {
            ListenerEvent::Bound => (
                SupervisorModel { phase: Lifecycle::Running, ..s },
                Directive::Accept,
            ),
            ListenerEvent::BindFailed | ListenerEvent::ListenerLost => supervisor_stop(
                s,
                EXIT_FAILURE,
            ),
            ListenerEvent::ShutdownRequested => supervisor_stop(s, EXIT_OK),
            ListenerEvent::Accepted => (s, Directive::Refuse),
            _ => (s, Directive::Nothing),
        },
        Lifecycle::Running => match e {
            ListenerEvent::Accepted => if s.live < s.limit {
                (SupervisorModel { live: s.live + 1, ..s }, Directive::Serve)
            } else {
                (s, Directive::Refuse)
            },
            ListenerEvent::AcceptFailed => (s, Directive::Accept),
            ListenerEvent::ListenerLost => supervisor_stop(s, EXIT_FAILURE),
            ListenerEvent::WorkerExited(_) => (
                SupervisorModel { live: if s.live > 0 {
                    (s.live - 1) as nat
                } else {
                    0
                }, ..s },
                Directive::Nothing,
            ),
            ListenerEvent::ShutdownRequested => if s.live == 0 {
                supervisor_stop(s, EXIT_OK)
            } else {
                (SupervisorModel { phase: Lifecycle::ShuttingDown, ..s }, Directive::Drain)
            },
            _ => (s, Directive::Nothing),
        },
        Lifecycle::ShuttingDown => match e {
            ListenerEvent::Accepted => (s, Directive::Refuse),
            ListenerEvent::WorkerExited(_) => if s.live <= 1 {
                supervisor_stop(SupervisorModel { live: 0, ..s }, EXIT_OK)
            } else {
                (SupervisorModel { live: (s.live - 1) as nat, ..s }, Directive::Nothing)
            },
            ListenerEvent::GraceExpired => supervisor_stop(
                SupervisorModel { live: 0, ..s },
                EXIT_OK,
            ),
            _ => (s, Directive::Nothing),
        },
        Lifecycle::Stopped(_) => match e {
            ListenerEvent::Accepted => (s, Directive::Refuse),
            _ => (s, Directive::Nothing),
        },
    }
}

/// The accept loop's state.
pub struct Supervisor {
    phase: Lifecycle,
    limit: usize,
    live: usize,
}

impl View for Supervisor {
    type V = SupervisorModel;

    closed spec fn view(&self) -> SupervisorModel {
        SupervisorModel { phase: self.phase, limit: self.limit as nat, live: self.live as nat }
    }
}

impl Supervisor {
    #[verifier::type_invariant]
    spec fn well_formed(self) -> bool {
        self@.inv()
    }

    /// A supervisor that lets at most `limit` workers be live at once. With
    /// a limit of zero every connection is refused.
    pub fn new(limit: usize) -> (s: Supervisor)
        ensures
            s@ == supervisor_init(limit as nat),
    {
        Supervisor { phase: Lifecycle::Starting, limit, live: 0 }
    }

    /// Where the service is in its life.
    pub fn phase(&self) -> (p: Lifecycle)
        ensures
            p == self@.phase,
    {
        self.phase
    }

    /// The most workers that may be live at once.
    pub fn limit(&self) -> (n: usize)
        ensures
            n == self@.limit,
    {
        self.limit
    }

    /// The workers that were started and have not exited.
    pub fn live(&self) -> (n: usize)
        ensures
            n == self@.live,
            n <= self@.limit,
    {
        proof {
            use_type_invariant(self);
        }
        self.live
    }

    /// The exit code, once the service has stopped.
    pub fn exit_code(&self) -> (code: Option<i32>)
        ensures
            code == (match self@.phase {
                Lifecycle::Stopped(c) => Some(c),
                _ => None,
            }),
            code matches Some(c) ==> c == EXIT_OK || c == EXIT_FAILURE,
    {
        proof {
            use_type_invariant(self);
        }
        match self.phase {
            Lifecycle::Stopped(c) => Some(c),
            _ => None,
        }
    }

    /// Takes what the driver reports and decides what it does next.
    ///
    /// While the service runs, a connection is served if fewer workers than
    /// the limit are live and refused otherwise; a failed accept and the exit
    /// of a worker, in good order or not, leave it running. Only a lost
    /// listener, a failed bind or a request to shut down end it.
    pub fn step(&mut self, event: ListenerEvent) -> (directive: Directive)
        ensures
            old(self)@.inv(),
            final(self)@.inv(),
            (final(self)@, directive) == supervisor_step(old(self)@, event),
    {
        proof {
            use_type_invariant(&*self);
        }
        let limit = self.limit;
        let live = self.live;
        match self.phase {
            Lifecycle::Starting => match event {
                ListenerEvent::Bound => {
                    *self = Supervisor { phase: Lifecycle::Running, limit, live };
                    Directive::Accept
                },
                ListenerEvent::BindFailed | ListenerEvent::ListenerLost => {
                    *self = Supervisor { phase: Lifecycle::Stopped(EXIT_FAILURE), limit, live };
                    Directive::Exit(EXIT_FAILURE)
                },
                ListenerEvent::ShutdownRequested => {
                    *self = Supervisor { phase: Lifecycle::Stopped(EXIT_OK), limit, live };
                    Directive::Exit(EXIT_OK)
                },
                ListenerEvent::Accepted => Directive::Refuse,
                _ => Directive::Nothing,
            },
            Lifecycle::Running => match event {
                ListenerEvent::Accepted => {
                    if live < limit {
                        *self = Supervisor { phase: Lifecycle::Running, limit, live: live + 1 };
                        Directive::Serve
                    } else {
                        Directive::Refuse
                    }
                },
                ListenerEvent::AcceptFailed => Directive::Accept,
                ListenerEvent::ListenerLost => {
                    *self = Supervisor { phase: Lifecycle::Stopped(EXIT_FAILURE), limit, live };
                    Directive::Exit(EXIT_FAILURE)
                },
                ListenerEvent::WorkerExited(_) => {
                    if live > 0 {
                        *self = Supervisor { phase: Lifecycle::Running, limit, live: live - 1 };
                    }
                    Directive::Nothing
                },
                ListenerEvent::ShutdownRequested => {
                    if live == 0 {
                        *self = Supervisor { phase: Lifecycle::Stopped(EXIT_OK), limit, live };
                        Directive::Exit(EXIT_OK)
                    } else {
                        *self = Supervisor { phase: Lifecycle::ShuttingDown, limit, live };
                        Directive::Drain
                    }
                },
                _ => Directive::Nothing,
            },
            Lifecycle::ShuttingDown => match event {
                ListenerEvent::Accepted => Directive::Refuse,
                ListenerEvent::WorkerExited(_) => {
                    if live <= 1 {
                        *self = Supervisor { phase: Lifecycle::Stopped(EXIT_OK), limit, live: 0 };
                        Directive::Exit(EXIT_OK)
                    } else {
                        *self = Supervisor {
                            phase: Lifecycle::ShuttingDown,
                            limit,
                            live: live - 1,
                        };
                        Directive::Nothing
                    }
                },
                ListenerEvent::GraceExpired => {
                    *self = Supervisor { phase: Lifecycle::Stopped(EXIT_OK), limit, live: 0 };
                    Directive::Exit(EXIT_OK)
                },
                _ => Directive::Nothing,
            },
            Lifecycle::Stopped(_) => match event {
                ListenerEvent::Accepted => Directive::Refuse,
                _ => Directive::Nothing,
            },
        }
    }
}

} // verus!
