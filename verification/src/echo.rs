//! The per-connection echo worker.
//!
//! A worker owns one connection. It never touches the socket itself: the
//! driver performs each read and write and reports what happened, and the
//! worker answers with the next thing to do. Everything the worker decides is
//! stated over [`WorkerModel`] and [`worker_step`].

use vstd::prelude::*;

verus! {

/// Default size, in bytes, of a connection's scratch buffer.
pub const BUFFER_CAPACITY: usize = 1024;

/// Why a connection was released.
#[derive(Clone, Copy, Debug, PartialEq, Eq, Structural)]
pub enum CloseReason {
    /// The peer ended the stream: a read returned zero bytes.
    PeerClosed,
    /// A read on the connection failed.
    ReadFailed,
    /// A write on the connection failed.
    WriteFailed,
    /// The driver reported something the worker was not waiting for, or a
    /// chunk larger than the buffer it was told to read into.
    OutOfTurn,
}

/// What a worker is waiting for.
#[derive(Clone, Copy, Debug, PartialEq, Eq, Structural)]
pub enum Phase {
    /// The outcome of a read.
    AwaitingRead,
    /// The outcome of the write of the chunk last read.
    AwaitingWrite,
    /// Nothing: the connection has been released.
    Closed(CloseReason),
}

/// What the driver reports to a worker.
#[derive(Clone, Copy, Debug)]
pub enum Event<'a> {
    /// A read succeeded and yielded these bytes; none means end of stream.
    Read(&'a [u8]),
    /// A read failed.
    ReadFailed,
    /// The chunk handed out last was written in full.
    Written,
    /// The write of the chunk handed out last failed.
    WriteFailed,
}

/// What a worker asks the driver to do next.
#[derive(Clone, Copy, Debug)]
pub enum Action<'a> {
    /// Read at most this many bytes from the connection.
    Read(usize),
    /// Write exactly these bytes back to the connection.
    Write(&'a [u8]),
    /// Release the connection, for this reason.
    Close(CloseReason),
    /// Nothing: the connection was released before.
    Nothing,
}

/// An [`Event`] as a mathematical value.
pub enum EventModel {
    Read(Seq<u8>),
    ReadFailed,
    Written,
    WriteFailed,
}

/// An [`Action`] as a mathematical value.
pub enum ActionModel {
    Read(nat),
    Write(Seq<u8>),
    Close(CloseReason),
    Nothing,
}

impl<'a> View for Event<'a> {
    type V = EventModel;

    open spec fn view(&self) -> EventModel {
        match *self {
            Event::Read(chunk) => EventModel::Read(chunk@),
            Event::ReadFailed => EventModel::ReadFailed,
            Event::Written => EventModel::Written,
            Event::WriteFailed => EventModel::WriteFailed,
        }
    }
}

impl<'a> View for Action<'a> {
    type V = ActionModel;

    open spec fn view(&self) -> ActionModel {
        match *self {
            Action::Read(max) => ActionModel::Read(max as nat),
            Action::Write(bytes) => ActionModel::Write(bytes@),
            Action::Close(reason) => ActionModel::Close(reason),
            Action::Nothing => ActionModel::Nothing,
        }
    }
}

/// A worker as a mathematical value: its phase and the history of its
/// connection.
pub struct WorkerModel {
    pub phase: Phase,
    /// Size of the scratch buffer.
    pub capacity: nat,
    /// Every byte taken from the peer so far, in order.
    pub received: Seq<u8>,
    /// Every byte whose write back to the peer was confirmed, in order.
    pub echoed: Seq<u8>,
    /// The chunk handed out for writing and not confirmed yet.
    pub pending: Seq<u8>,
}

/// A worker that has just been given its connection.
pub open spec fn worker_init(capacity: nat) -> WorkerModel {
    WorkerModel {
        phase: Phase::AwaitingRead,
        capacity,
        received: Seq::empty(),
        echoed: Seq::empty(),
        pending: Seq::empty(),
    }
}

/// The worker `w` released for `reason`, with the action that says so.
pub open spec fn worker_close(w: WorkerModel, reason: CloseReason) -> (WorkerModel, ActionModel) {
    (WorkerModel { phase: Phase::Closed(reason), ..w }, ActionModel::Close(reason))
}

/// One decision of a worker: the state after `e`, and what it asks for.
pub open spec fn worker_step(w: WorkerModel, e: EventModel) -> (WorkerModel, ActionModel) {
    match w.phase {
        Phase::AwaitingRead => match e {
            EventModel::Read(chunk) => if chunk.len() == 0 {
                worker_close(w, CloseReason::PeerClosed)
            } else if chunk.len() > w.capacity {
                worker_close(w, CloseReason::OutOfTurn)
            } else {
                (
                    WorkerModel {
                        phase: Phase::AwaitingWrite,
                        received: w.received + chunk,
                        pending: chunk,
                        ..w
                    },
                    ActionModel::Write(chunk),
                )
            },
            EventModel::ReadFailed => worker_close(w, CloseReason::ReadFailed),
            _ => worker_close(w, CloseReason::OutOfTurn),
        },
        Phase::AwaitingWrite => match e {
            EventModel::Written => (
                WorkerModel {
                    phase: Phase::AwaitingRead,
                    echoed: w.echoed + w.pending,
                    pending: Seq::empty(),
                    ..w
                },
                ActionModel::Read(w.capacity),
            ),
            EventModel::WriteFailed => worker_close(w, CloseReason::WriteFailed),
            _ => worker_close(w, CloseReason::OutOfTurn),
        },
        Phase::Closed(_) => (w, ActionModel::Nothing),
    }
}

impl WorkerModel {
    /// What holds of every worker that started from [`worker_init`]: the
    /// bytes echoed are the bytes received, but for the chunk in flight or
    /// the chunk lost with a failed connection.
    pub open spec fn inv(self) -> bool {
        &&& self.capacity > 0
        &&& self.pending.len() <= self.capacity
        &&& self.received == self.echoed + self.pending
        &&& self.phase == Phase::AwaitingRead ==> self.pending.len() == 0
        &&& self.phase == Phase::AwaitingWrite ==> self.pending.len() > 0
        &&& self.phase == Phase::Closed(CloseReason::PeerClosed) ==> self.pending.len() == 0
        &&& self.phase == Phase::Closed(CloseReason::ReadFailed) ==> self.pending.len() == 0
        &&& self.phase == Phase::Closed(CloseReason::WriteFailed) ==> self.pending.len() > 0
    }
}

/// The count `n` as a counter shows it: itself, or the largest number the
/// counter can hold.
pub open spec fn counted(n: nat) -> u64 {
    if n > u64::MAX {
        u64::MAX
    } else {
        n as u64
    }
}

/// One connection's worker.
pub struct ConnectionWorker {
    phase: Phase,
    capacity: usize,
    pending_len: usize,
    echoed_count: u64,
    received: Ghost<Seq<u8>>,
    echoed: Ghost<Seq<u8>>,
    pending: Ghost<Seq<u8>>,
}

impl View for ConnectionWorker {
    type V = WorkerModel;

    closed spec fn view(&self) -> WorkerModel {
        WorkerModel {
            phase: self.phase,
            capacity: self.capacity as nat,
            received: self.received@,
            echoed: self.echoed@,
            pending: self.pending@,
        }
    }
}

impl ConnectionWorker {
    #[verifier::type_invariant]
    spec fn well_formed(self) -> bool {
        &&& self@.inv()
        &&& self.pending_len == self.pending@.len()
        &&& self.echoed_count == counted(self.echoed@.len())
    }

    /// A worker for a fresh connection, with a scratch buffer of `capacity`
    /// bytes. There is none for an empty buffer: every read into it would
    /// look like the end of the stream.
    pub fn new(capacity: usize) -> (r: Option<ConnectionWorker>)
        ensures
            match r {
                Some(w) => capacity > 0 && w@ == worker_init(capacity as nat),
                None => capacity == 0,
            },
    {
        if capacity == 0 {
            None
        } else {
            Some(
                ConnectionWorker {
                    phase: Phase::AwaitingRead,
                    capacity,
                    pending_len: 0,
                    echoed_count: 0,
                    received: Ghost(Seq::empty()),
                    echoed: Ghost(Seq::empty()),
                    pending: Ghost(Seq::empty()),
                },
            )
        }
    }

    /// The first thing to ask of the driver, and the thing to ask again
    /// whenever the worker is waiting for a read.
    pub fn start(&self) -> (action: Action<'static>)
        ensures
            self@.inv(),
            action@ == (match self@.phase {
                Phase::AwaitingRead => ActionModel::Read(self@.capacity),
                _ => ActionModel::Nothing,
            }),
    {
        proof {
            use_type_invariant(self);
        }
        match self.phase {
            Phase::AwaitingRead => Action::Read(self.capacity),
            _ => Action::Nothing,
        }
    }

    /// What the worker is waiting for.
    pub fn phase(&self) -> (p: Phase)
        ensures
            p == self@.phase,
    {
        self.phase
    }

    /// The size of the scratch buffer the driver reads into.
    pub fn capacity(&self) -> (c: usize)
        ensures
            c == self@.capacity,
            c > 0,
    {
        proof {
            use_type_invariant(self);
        }
        self.capacity
    }

    /// How many bytes were written back and confirmed so far; the counter
    /// stops at its largest value.
    pub fn echoed_bytes(&self) -> (n: u64)
        ensures
            n == counted(self@.echoed.len()),
    {
        proof {
            use_type_invariant(self);
        }
        self.echoed_count
    }

    /// Takes what the driver reports and decides what comes next.
    ///
    /// A chunk read is handed back for writing byte for byte, whatever it
    /// holds. A read of nothing ends the session in good order; a failure, or
    /// a report out of turn, ends it at once. After the one `Close` the
    /// worker asks for nothing more.
    pub fn step<'a>(&mut self, event: Event<'a>) -> (action: Action<'a>)
        ensures
            old(self)@.inv(),
            final(self)@.inv(),
            (final(self)@, action@) == worker_step(old(self)@, event@),
    {
        proof {
            use_type_invariant(&*self);
        }
        match self.phase {
            Phase::AwaitingRead => match event {
                Event::Read(chunk) => {
                    let n = chunk.len();
                    if n == 0 {
                        self.close(CloseReason::PeerClosed)
                    } else if n > self.capacity {
                        self.close(CloseReason::OutOfTurn)
                    } else {
                        *self = ConnectionWorker {
                            phase: Phase::AwaitingWrite,
                            capacity: self.capacity,
                            pending_len: n,
                            echoed_count: self.echoed_count,
                            received: Ghost(self.received@ + chunk@),
                            echoed: self.echoed,
                            pending: Ghost(chunk@),
                        };
                        Action::Write(chunk)
                    }
                },
                Event::ReadFailed => self.close(CloseReason::ReadFailed),
                _ => self.close(CloseReason::OutOfTurn),
            },
            Phase::AwaitingWrite => match event {
                Event::Written => {
                    *self = ConnectionWorker {
                        phase: Phase::AwaitingRead,
                        capacity: self.capacity,
                        pending_len: 0,
                        echoed_count: self.echoed_count.saturating_add(self.pending_len as u64),
                        received: self.received,
                        echoed: Ghost(self.echoed@ + self.pending@),
                        pending: Ghost(Seq::empty()),
                    };
                    Action::Read(self.capacity)
                },
                Event::WriteFailed => self.close(CloseReason::WriteFailed),
                _ => self.close(CloseReason::OutOfTurn),
            },
            Phase::Closed(_) => Action::Nothing,
        }
    }

    fn close(&mut self, reason: CloseReason) -> (action: Action<'static>)
        requires
            old(self)@.phase == Phase::AwaitingRead || old(self)@.phase == Phase::AwaitingWrite,
            reason == CloseReason::PeerClosed || reason == CloseReason::ReadFailed
                ==> old(self)@.phase == Phase::AwaitingRead,
            reason == CloseReason::WriteFailed ==> old(self)@.phase == Phase::AwaitingWrite,
        ensures
            (final(self)@, action@) == worker_close(old(self)@, reason),
    {
        proof {
            use_type_invariant(&*self);
        }
        *self = ConnectionWorker {
            phase: Phase::Closed(reason),
            capacity: self.capacity,
            pending_len: self.pending_len,
            echoed_count: self.echoed_count,
            received: self.received,
            echoed: self.echoed,
            pending: self.pending,
        };
        Action::Close(reason)
    }
}

} // verus!
