use echor::echo::CloseReason;
use echor::supervisor::{Directive, Lifecycle, ListenerEvent, Supervisor, EXIT_FAILURE, EXIT_OK};

fn running(limit: usize) -> Supervisor {
    let mut s = Supervisor::new(limit);
    assert_eq!(s.step(ListenerEvent::Bound), Directive::Accept);
    s
}

#[test]
fn starts_unbound_and_runs_once_bound() {
    let mut s = Supervisor::new(3);
    assert_eq!(s.phase(), Lifecycle::Starting);
    assert_eq!(s.limit(), 3);
    assert_eq!(s.live(), 0);
    assert_eq!(s.exit_code(), None);
    assert_eq!(s.step(ListenerEvent::Bound), Directive::Accept);
    assert_eq!(s.phase(), Lifecycle::Running);
}

#[test]
fn a_failed_bind_is_fatal() {
    let mut s = Supervisor::new(3);
    assert_eq!(s.step(ListenerEvent::BindFailed), Directive::Exit(EXIT_FAILURE));
    assert_eq!(s.phase(), Lifecycle::Stopped(1));
    assert_eq!(s.exit_code(), Some(1));
    assert_eq!(s.step(ListenerEvent::Bound), Directive::Nothing);
    assert_eq!(s.step(ListenerEvent::Accepted), Directive::Refuse);
    assert_eq!(s.exit_code(), Some(1));
    assert_ne!(EXIT_FAILURE, 0);
}

#[test]
fn serves_up_to_the_limit_and_refuses_beyond() {
    let mut s = running(2);
    assert_eq!(s.step(ListenerEvent::Accepted), Directive::Serve);
    assert_eq!(s.step(ListenerEvent::Accepted), Directive::Serve);
    assert_eq!(s.live(), 2);
    assert_eq!(s.step(ListenerEvent::Accepted), Directive::Refuse);
    assert_eq!(s.live(), 2);
    assert_eq!(s.phase(), Lifecycle::Running);
    assert_eq!(s.step(ListenerEvent::WorkerExited(CloseReason::PeerClosed)), Directive::Nothing);
    assert_eq!(s.live(), 1);
    assert_eq!(s.step(ListenerEvent::Accepted), Directive::Serve);
    assert_eq!(s.live(), 2);
}

#[test]
fn a_limit_of_zero_refuses_everything() {
    let mut s = running(0);
    assert_eq!(s.step(ListenerEvent::Accepted), Directive::Refuse);
    assert_eq!(s.live(), 0);
    assert_eq!(s.phase(), Lifecycle::Running);
}

#[test]
fn a_failed_accept_does_not_stop_the_service() {
    let mut s = running(2);
    assert_eq!(s.step(ListenerEvent::AcceptFailed), Directive::Accept);
    assert_eq!(s.phase(), Lifecycle::Running);
    assert_eq!(s.step(ListenerEvent::Accepted), Directive::Serve);
}

#[test]
fn a_worker_that_fails_does_not_stop_the_service() {
    for reason in [
        CloseReason::PeerClosed,
        CloseReason::ReadFailed,
        CloseReason::WriteFailed,
        CloseReason::OutOfTurn,
    ] {
        let mut s = running(1);
        assert_eq!(s.step(ListenerEvent::Accepted), Directive::Serve);
        assert_eq!(s.step(ListenerEvent::WorkerExited(reason)), Directive::Nothing);
        assert_eq!(s.phase(), Lifecycle::Running);
        assert_eq!(s.live(), 0);
        assert_eq!(s.step(ListenerEvent::Accepted), Directive::Serve);
    }
}

#[test]
fn a_lost_listener_stops_the_service_with_a_failure() {
    let mut s = running(2);
    assert_eq!(s.step(ListenerEvent::Accepted), Directive::Serve);
    assert_eq!(s.step(ListenerEvent::ListenerLost), Directive::Exit(EXIT_FAILURE));
    assert_eq!(s.phase(), Lifecycle::Stopped(EXIT_FAILURE));
}

#[test]
fn shutdown_with_nothing_in_flight_stops_at_once() {
    let mut s = running(2);
    assert_eq!(s.step(ListenerEvent::ShutdownRequested), Directive::Exit(EXIT_OK));
    assert_eq!(s.exit_code(), Some(0));
}

#[test]
fn shutdown_waits_for_the_workers_in_flight() {
    let mut s = running(3);
    assert_eq!(s.step(ListenerEvent::Accepted), Directive::Serve);
    assert_eq!(s.step(ListenerEvent::Accepted), Directive::Serve);
    assert_eq!(s.step(ListenerEvent::ShutdownRequested), Directive::Drain);
    assert_eq!(s.phase(), Lifecycle::ShuttingDown);
    assert_eq!(s.step(ListenerEvent::Accepted), Directive::Refuse);
    assert_eq!(s.step(ListenerEvent::ShutdownRequested), Directive::Nothing);
    assert_eq!(s.step(ListenerEvent::AcceptFailed), Directive::Nothing);
    assert_eq!(s.step(ListenerEvent::WorkerExited(CloseReason::PeerClosed)), Directive::Nothing);
    assert_eq!(s.live(), 1);
    assert_eq!(
        s.step(ListenerEvent::WorkerExited(CloseReason::ReadFailed)),
        Directive::Exit(EXIT_OK)
    );
    assert_eq!(s.phase(), Lifecycle::Stopped(0));
    assert_eq!(s.live(), 0);
}

#[test]
fn the_end_of_the_grace_period_closes_what_is_left() {
    let mut s = running(3);
    assert_eq!(s.step(ListenerEvent::Accepted), Directive::Serve);
    assert_eq!(s.step(ListenerEvent::Accepted), Directive::Serve);
    assert_eq!(s.step(ListenerEvent::GraceExpired), Directive::Nothing);
    assert_eq!(s.step(ListenerEvent::ShutdownRequested), Directive::Drain);
    assert_eq!(s.step(ListenerEvent::GraceExpired), Directive::Exit(EXIT_OK));
    assert_eq!(s.phase(), Lifecycle::Stopped(EXIT_OK));
    assert_eq!(s.live(), 0);
    assert_eq!(s.step(ListenerEvent::WorkerExited(CloseReason::ReadFailed)), Directive::Nothing);
    assert_eq!(s.exit_code(), Some(0));
}

#[test]
fn shutdown_before_the_bind_stops_cleanly() {
    let mut s = Supervisor::new(1);
    assert_eq!(s.step(ListenerEvent::Accepted), Directive::Refuse);
    assert_eq!(s.step(ListenerEvent::WorkerExited(CloseReason::PeerClosed)), Directive::Nothing);
    assert_eq!(s.step(ListenerEvent::ShutdownRequested), Directive::Exit(EXIT_OK));
    assert_eq!(s.phase(), Lifecycle::Stopped(0));
}

#[test]
fn a_worker_exit_that_was_never_served_is_ignored() {
    let mut s = running(1);
    assert_eq!(s.step(ListenerEvent::WorkerExited(CloseReason::PeerClosed)), Directive::Nothing);
    assert_eq!(s.live(), 0);
    assert_eq!(s.step(ListenerEvent::Bound), Directive::Nothing);
    assert_eq!(s.step(ListenerEvent::BindFailed), Directive::Nothing);
    assert_eq!(s.phase(), Lifecycle::Running);
}

#[test]
fn the_live_workers_never_exceed_the_limit() {
    let mut s = running(5);
    let mut x: u32 = 12345;
    for _ in 0..10_000 {
        x = x.wrapping_mul(1664525).wrapping_add(1013904223);
        let event = match (x >> 24) % 4 {
            0 | 1 => ListenerEvent::Accepted,
            2 => ListenerEvent::WorkerExited(CloseReason::WriteFailed),
            _ => ListenerEvent::AcceptFailed,
        };
        let before = s.live();
        let directive = s.step(event);
        assert!(s.live() <= 5);
        assert_eq!(s.phase(), Lifecycle::Running);
        if event == ListenerEvent::Accepted {
            assert_eq!(directive == Directive::Serve, before < 5);
        }
    }
}
