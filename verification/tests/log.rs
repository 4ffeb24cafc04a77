use echor::echo::CloseReason;
use echor::log::{accept_line, cause, close_line, escape, listener_notice, push_decimal, refuse_line};
use echor::startup::{bind_address, port, StartupError};
use echor::supervisor::ListenerEvent;

#[test]
fn plain_text_is_logged_as_it_is() {
    assert_eq!(escape(b"abc"), "abc");
    assert_eq!(escape(b"Hello, world! ~"), "Hello, world! ~");
    assert_eq!(escape(b""), "");
}

#[test]
fn bytes_that_are_no_plain_text_are_escaped() {
    assert_eq!(escape(&[0x80]), "\\x80");
    assert_eq!(escape(b"a\nb"), "a\\x0Ab");
    assert_eq!(escape(b"a\\b"), "a\\x5Cb");
    assert_eq!(escape(&[0x00, 0x1F, 0x20, 0x7E, 0x7F, 0xFF]), "\\x00\\x1F ~\\x7F\\xFF");
    assert_eq!(escape("é".as_bytes()), "\\xC3\\xA9");
    assert_eq!(escape(&[0xED, 0xA0, 0x80]), "\\xED\\xA0\\x80");
}

#[test]
fn escaped_text_is_printable_and_tells_payloads_apart() {
    let mut seen = std::collections::HashSet::new();
    for a in 0..=255u8 {
        let one = escape(&[a]);
        assert!(one.chars().all(|c| (' '..='~').contains(&c)));
        assert!(one.len() == 1 || one.len() == 4);
        assert!(seen.insert(one));
    }
    // A backslash in the payload cannot pass for an escape.
    assert_ne!(escape(b"\\x41"), escape(b"A"));
    assert_ne!(escape(b"\\x41"), escape(&[0x41]));
    assert_eq!(escape(b"\\x41"), "\\x5Cx41");
    let all: Vec<u8> = (0..=255u8).collect();
    assert!(escape(&all).len() <= 4 * 256);
}

#[test]
fn numbers_are_logged_in_decimal() {
    for n in [0u64, 1, 9, 10, 11, 99, 100, 12345, 1_000_000, u64::MAX] {
        let mut text = String::from("n=");
        push_decimal(&mut text, n);
        assert_eq!(text, format!("n={}", n));
    }
}

#[test]
fn connection_lines_name_the_peer_and_the_cause() {
    assert_eq!(accept_line("127.0.0.1:4000"), "Accept from 127.0.0.1:4000.");
    assert_eq!(refuse_line("[::1]:9"), "Refused [::1]:9: not accepting");
    assert_eq!(
        close_line("127.0.0.1:4000", CloseReason::PeerClosed, 3),
        "Closed 127.0.0.1:4000: peer closed, 3 bytes echoed"
    );
    assert_eq!(
        close_line("p", CloseReason::ReadFailed, 0),
        "Closed p: read failed, 0 bytes echoed"
    );
    assert_eq!(
        close_line("p", CloseReason::WriteFailed, 1024),
        "Closed p: write failed, 1024 bytes echoed"
    );
    assert_eq!(
        close_line("p", CloseReason::OutOfTurn, u64::MAX),
        "Closed p: driver fault, 18446744073709551615 bytes echoed"
    );
    assert_eq!(cause(CloseReason::PeerClosed), "peer closed");
}

#[test]
fn listener_failures_have_a_notice() {
    assert_eq!(listener_notice(ListenerEvent::BindFailed), Some("listener: bind failed, giving up"));
    assert_eq!(
        listener_notice(ListenerEvent::AcceptFailed),
        Some("listener: accept failed, still accepting")
    );
    assert_eq!(listener_notice(ListenerEvent::ListenerLost), Some("listener: lost, stopping"));
    assert_eq!(listener_notice(ListenerEvent::Bound), None);
    assert_eq!(listener_notice(ListenerEvent::Accepted), None);
    assert_eq!(listener_notice(ListenerEvent::WorkerExited(CloseReason::ReadFailed)), None);
    assert_eq!(listener_notice(ListenerEvent::ShutdownRequested), None);
    assert_eq!(listener_notice(ListenerEvent::GraceExpired), None);
}

#[test]
fn the_port_is_what_follows_the_last_colon() {
    assert_eq!(port("127.0.0.1:8080"), Some(8080));
    assert_eq!(port("localhost:0"), Some(0));
    assert_eq!(port("localhost:65535"), Some(65535));
    assert_eq!(port("localhost:65536"), None);
    assert_eq!(port("[::1]:7"), Some(7));
    assert_eq!(port("::1"), Some(1));
    assert_eq!(port("host:+80"), Some(80));
    assert_eq!(port("host:0080"), Some(80));
    assert_eq!(port("host:"), None);
    assert_eq!(port("host"), None);
    assert_eq!(port(""), None);
    assert_eq!(port(":"), None);
    assert_eq!(port("host:80:"), None);
    assert_eq!(port("host:8o"), None);
    assert_eq!(port("host:-1"), None);
    assert_eq!(port("host: 80"), None);
}

#[test]
fn the_address_is_the_first_argument() {
    let args = |list: &[&str]| list.iter().map(|s| s.to_string()).collect::<Vec<String>>();
    assert_eq!(bind_address(&args(&[])), Err(StartupError::MissingAddress));
    assert_eq!(bind_address(&args(&["echor"])), Err(StartupError::MissingAddress));
    assert_eq!(bind_address(&args(&["echor", "nowhere"])), Err(StartupError::MalformedAddress));
    assert_eq!(bind_address(&args(&["echor", "host:99999"])), Err(StartupError::MalformedAddress));
    assert_eq!(
        bind_address(&args(&["echor", "127.0.0.1:8080"])),
        Ok(&"127.0.0.1:8080".to_string())
    );
    assert_eq!(
        bind_address(&args(&["echor", "0.0.0.0:7", "ignored"])),
        Ok(&"0.0.0.0:7".to_string())
    );
}
