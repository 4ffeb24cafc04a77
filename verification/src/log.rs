//! Text for the log.
//!
//! What a peer sends is bytes, not text. Whatever is logged of it is escaped
//! first, so that no payload, however ill-formed, can fail a connection or
//! spoil the log.

use crate::echo::CloseReason;
use crate::supervisor::ListenerEvent;
use crate::text::push_char;
use crate::unicode::upper_hex_digit;
use vstd::prelude::*;

verus! {

/// Whether the byte `b` is logged as it is: a printable ASCII character
/// other than the backslash.
pub open spec fn is_plain(b: u8) -> bool {
    0x20 <= b <= 0x7E && b != 0x5C
}

/// How one byte is logged: itself if it is plain, else a backslash, an `x`
/// and its two upper-case hexadecimal digits.
pub open spec fn escaped_byte(b: u8) -> Seq<char> {
    if is_plain(b) {
        seq![b as char]
    } else {
        seq!['\\', 'x', upper_hex_digit(b as int / 16), upper_hex_digit(b as int % 16)]
    }
}

/// How a payload is logged: each byte escaped, in order.
pub open spec fn escaped(bytes: Seq<u8>) -> Seq<char>
    decreases bytes.len(),
{
    if bytes.len() == 0 {
        Seq::empty()
    } else {
        escaped(bytes.drop_last()) + escaped_byte(bytes.last())
    }
}

/// Whether `c` is a printable ASCII character.
pub open spec fn is_printable(c: char) -> bool {
    0x20 <= c as u32 <= 0x7E
}

/// A logged payload is printable ASCII throughout, whatever the bytes were,
/// and at most four times as long.
pub proof fn lemma_escaped_is_printable(bytes: Seq<u8>)
    ensures
        forall|i: int| 0 <= i < escaped(bytes).len() ==> is_printable(#[trigger] escaped(bytes)[i]),
        bytes.len() <= escaped(bytes).len() <= 4 * bytes.len(),
    decreases bytes.len(),
{
    if bytes.len() > 0 {
        lemma_escaped_is_printable(bytes.drop_last());
        let head = escaped(bytes.drop_last());
        let tail = escaped_byte(bytes.last());
        assert forall|i: int| 0 <= i < escaped(bytes).len() implies is_printable(
            #[trigger] escaped(bytes)[i],
        ) by {
            if i >= head.len() {
                assert(escaped(bytes)[i] == tail[i - head.len()]);
            } else {
                assert(escaped(bytes)[i] == head[i]);
            }
        }
    }
}

/// Escaping goes byte by byte from the front as well as from the back.
pub proof fn lemma_escaped_append(a: Seq<u8>, b: Seq<u8>)
    ensures
        escaped(a + b) == escaped(a) + escaped(b),
    decreases b.len(),
{
    if b.len() == 0 {
        assert(a + b =~= a);
        assert(escaped(a) + escaped(b) =~= escaped(a));
    } else {
        assert((a + b).drop_last() =~= a + b.drop_last());
        assert((a + b).last() == b.last());
        lemma_escaped_append(a, b.drop_last());
        assert(escaped(a + b) =~= escaped(a) + escaped(b));
    }
}

/// A payload of one byte is logged as that byte is.
proof fn lemma_escaped_one(x: u8)
    ensures
        escaped(seq![x]) == escaped_byte(x),
{
    let one = seq![x];
    assert(one.drop_last() =~= Seq::<u8>::empty());
    assert(escaped(Seq::<u8>::empty()) =~= Seq::<char>::empty());
    assert(one.last() == x);
    assert(escaped(one) =~= escaped(one.drop_last()) + escaped_byte(x));
    assert(escaped(one) =~= escaped_byte(x));
}

/// Two bytes that are logged alike are the same byte, and no byte's text
/// begins another's.
proof fn lemma_escaped_byte_tells_apart(x: u8, y: u8)
    ensures
        escaped_byte(x) == escaped_byte(y) ==> x == y,
        escaped_byte(x)[0] == escaped_byte(y)[0] ==> escaped_byte(x).len() == escaped_byte(y).len(),
{
    let ex = escaped_byte(x);
    let ey = escaped_byte(y);
    if ex == ey {
        if is_plain(x) {
            assert(ex[0] == x as char);
            assert(ey[0] == x as char);
        } else {
            assert(ex[2] == ey[2]);
            assert(ex[3] == ey[3]);
            assert(x as int / 16 == y as int / 16);
            assert(x as int % 16 == y as int % 16);
        }
    }
}

/// Nothing is lost in the log: payloads that are logged alike are the same
/// payload.
pub proof fn lemma_escaped_tells_apart(a: Seq<u8>, b: Seq<u8>)
    requires
        escaped(a) == escaped(b),
    ensures
        a == b,
    decreases a.len(),
{
    lemma_escaped_is_printable(a);
    lemma_escaped_is_printable(b);
    if a.len() == 0 || b.len() == 0 {
        assert(a.len() == 0 && b.len() == 0);
        assert(a =~= b);
    } else {
        let (x, y) = (a.first(), b.first());
        let (ra, rb) = (a.drop_first(), b.drop_first());
        assert(a =~= seq![x] + ra);
        assert(b =~= seq![y] + rb);
        lemma_escaped_append(seq![x], ra);
        lemma_escaped_append(seq![y], rb);
        lemma_escaped_one(x);
        lemma_escaped_one(y);
        let (ex, ey) = (escaped_byte(x), escaped_byte(y));
        assert(escaped(a)[0] == ex[0]);
        assert(escaped(b)[0] == ey[0]);
        lemma_escaped_byte_tells_apart(x, y);
        assert(ex.len() == ey.len());
        assert forall|i: int| 0 <= i < ex.len() implies ex[i] == ey[i] by {
            assert(escaped(a)[i] == ex[i]);
            assert(escaped(b)[i] == ey[i]);
        }
        assert(ex =~= ey);
        assert forall|i: int| 0 <= i < escaped(ra).len() implies escaped(ra)[i] == escaped(rb)[i] by {
            assert(escaped(a)[ex.len() + i] == escaped(ra)[i]);
            assert(escaped(b)[ey.len() + i] == escaped(rb)[i]);
        }
        assert(escaped(ra).len() == escaped(a).len() - ex.len());
        assert(escaped(rb).len() == escaped(b).len() - ey.len());
        assert(escaped(ra) =~= escaped(rb));
        lemma_escaped_tells_apart(ra, rb);
    }
}

fn hex_digit(d: u8) -> (c: char)
    requires
        d < 16,
    ensures
        c == upper_hex_digit(d as int),
{
    if d < 10 {
        (48 + d) as char
    } else {
        (55 + d) as char
    }
}

/// The payload `bytes` as text for the log.
pub fn escape(bytes: &[u8]) -> (text: String)
    ensures
        text@ == escaped(bytes@),
{
    let mut text = String::new();
    let mut i: usize = 0;
    assert(bytes@.take(0) =~= Seq::<u8>::empty());
    while i < bytes.len()
        invariant
            i <= bytes.len(),
            text@ == escaped(bytes@.take(i as int)),
        decreases bytes.len() - i,
    {
        let b = bytes[i];
        let ghost more = bytes@.take(i + 1);
        assert(more.drop_last() =~= bytes@.take(i as int));
        assert(more.last() == b);
        if 0x20 <= b && b <= 0x7E && b != 0x5C {
            push_char(&mut text, b as char);
            assert(text@ =~= escaped(more));
        } else {
            push_char(&mut text, '\\');
            push_char(&mut text, 'x');
            push_char(&mut text, hex_digit(b / 16));
            push_char(&mut text, hex_digit(b % 16));
            assert(text@ =~= escaped(more));
        }
        i += 1;
    }
    assert(bytes@.take(i as int) =~= bytes@);
    text
}

/// The number `n` in decimal digits, without leading zeros. (A digit below
/// ten is written alike in decimal and in hexadecimal.)
pub open spec fn decimal(n: nat) -> Seq<char>
    decreases n,
{
    if n < 10 {
        seq![upper_hex_digit(n as int)]
    } else {
        decimal(n / 10).push(upper_hex_digit((n % 10) as int))
    }
}

/// Appends `n` in decimal digits to `text`.
pub fn push_decimal(text: &mut String, n: u64)
    ensures
        final(text)@ == old(text)@ + decimal(n as nat),
    decreases n,
{
    if n >= 10 {
        push_decimal(text, n / 10);
    }
    push_char(text, hex_digit((n % 10) as u8));
    assert(text@ =~= old(text)@ + decimal(n as nat));
}

/// Why a connection was released, in words.
pub open spec fn cause_text(reason: CloseReason) -> Seq<char> {
    match reason {
        CloseReason::PeerClosed => "peer closed"@,
        CloseReason::ReadFailed => "read failed"@,
        CloseReason::WriteFailed => "write failed"@,
        CloseReason::OutOfTurn => "driver fault"@,
    }
}

/// Why a connection was released, in words.
pub fn cause(reason: CloseReason) -> (text: &'static str)
    ensures
        text@ == cause_text(reason),
{
    match reason {
        CloseReason::PeerClosed => "peer closed",
        CloseReason::ReadFailed => "read failed",
        CloseReason::WriteFailed => "write failed",
        CloseReason::OutOfTurn => "driver fault",
    }
}

/// The line that records a connection accepted from `peer`.
pub fn accept_line(peer: &str) -> (line: String)
    ensures
        line@ == "Accept from "@ + peer@ + "."@,
{
    let mut line = "Accept from ".to_owned();
    line.append(peer);
    line.append(".");
    line
}

/// The line that records a connection from `peer` turned away because the
/// service is full or no longer accepts.
pub fn refuse_line(peer: &str) -> (line: String)
    ensures
        line@ == "Refused "@ + peer@ + ": not accepting"@,
{
    let mut line = "Refused ".to_owned();
    line.append(peer);
    line.append(": not accepting");
    line
}

/// The line that records the end of the connection to `peer`: why it was
/// released and how many bytes had been echoed.
pub fn close_line(peer: &str, reason: CloseReason, echoed: u64) -> (line: String)
    ensures
        line@ == "Closed "@ + peer@ + ": "@ + cause_text(reason) + ", "@ + decimal(echoed as nat)
            + " bytes echoed"@,
{
    let mut line = "Closed ".to_owned();
    line.append(peer);
    line.append(": ");
    line.append(cause(reason));
    line.append(", ");
    push_decimal(&mut line, echoed);
    line.append(" bytes echoed");
    line
}

/// What the log says of a failure of the listener itself; nothing for an
/// event that is no failure.
pub open spec fn listener_notice_text(event: ListenerEvent) -> Option<Seq<char>> {
    match event {
        ListenerEvent::BindFailed => Some("listener: bind failed, giving up"@),
        ListenerEvent::AcceptFailed => Some("listener: accept failed, still accepting"@),
        ListenerEvent::ListenerLost => Some("listener: lost, stopping"@),
        _ => None,
    }
}

/// What the log says of a failure of the listener itself.
pub fn listener_notice(event: ListenerEvent) -> (text: Option<&'static str>)
    ensures
        match text {
            Some(t) => listener_notice_text(event) == Some(t@),
            None => listener_notice_text(event) is None,
        },
{
    match event {
        ListenerEvent::BindFailed => Some("listener: bind failed, giving up"),
        ListenerEvent::AcceptFailed => Some("listener: accept failed, still accepting"),
        ListenerEvent::ListenerLost => Some("listener: lost, stopping"),
        _ => None,
    }
}

} // verus!
