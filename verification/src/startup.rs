//! The one thing the service is started with: the address to bind.

use crate::number::{parse_unsigned, parse_unsigned_spec};
use crate::text::chars_of;
use vstd::prelude::*;

verus! {

/// The largest port.
pub const MAX_PORT: u32 = 65535;

/// Why the service cannot even try to bind.
#[derive(Clone, Copy, Debug, PartialEq, Eq, Structural)]
pub enum StartupError {
    /// The command line names no address.
    MissingAddress,
    /// The address is not of the form `host:port`.
    MalformedAddress,
}

/// What stands in `s` after its last `sep`. None if `sep` does not occur.
pub open spec fn after_last(s: Seq<char>, sep: char) -> Option<Seq<char>>
    decreases s.len(),
{
    if s.len() == 0 {
        None
    } else if s.last() == sep {
        Some(Seq::empty())
    } else {
        match after_last(s.drop_last(), sep) {
            Some(tail) => Some(tail.push(s.last())),
            None => None,
        }
    }
}

/// The port that `address` names: what stands after its last colon, read as
/// a decimal number up to 65535. None if there is no colon or no such
/// number. An address without a port cannot be bound.
pub open spec fn port_of(address: Seq<char>) -> Option<nat> {
    match after_last(address, ':') {
        Some(tail) => parse_unsigned_spec(tail, 10, MAX_PORT as nat),
        None => None,
    }
}

/// The address that the command line `args` names, the program's name
/// first: its second entry, if that has the form `host:port`.
pub open spec fn bind_address_spec(args: Seq<Seq<char>>) -> Result<Seq<char>, StartupError> {
    if args.len() < 2 {
        Err(StartupError::MissingAddress)
    } else if port_of(args[1]) is None {
        Err(StartupError::MalformedAddress)
    } else {
        Ok(args[1])
    }
}

/// What stands after the last `sep` is what stands after a `sep` that no
/// other follows.
pub proof fn lemma_after_last(s: Seq<char>, sep: char, i: int)
    requires
        0 <= i < s.len(),
        s[i] == sep,
        forall|j: int| i < j < s.len() ==> s[j] != sep,
    ensures
        after_last(s, sep) == Some(s.subrange(i + 1, s.len() as int)),
    decreases s.len(),
{
    if i == s.len() - 1 {
        assert(s.subrange(i + 1, s.len() as int) =~= Seq::<char>::empty());
    } else {
        assert(s.last() != sep);
        lemma_after_last(s.drop_last(), sep, i);
        assert(s.drop_last().subrange(i + 1, s.len() - 1).push(s.last()) =~= s.subrange(
            i + 1,
            s.len() as int,
        ));
    }
}

/// Where `sep` stands nowhere, nothing stands after it.
pub proof fn lemma_after_last_none(s: Seq<char>, sep: char)
    requires
        forall|j: int| 0 <= j < s.len() ==> s[j] != sep,
    ensures
        after_last(s, sep) is None,
    decreases s.len(),
{
    if s.len() > 0 {
        lemma_after_last_none(s.drop_last(), sep);
    }
}

/// The port that `address` names.
pub fn port(address: &str) -> (r: Option<u16>)
    ensures
        match r {
            Some(p) => port_of(address@) == Some(p as nat),
            None => port_of(address@) is None,
        },
{
    let chars = chars_of(address);
    let mut i: usize = chars.len();
    while i > 0 && chars[i - 1] != ':'
        invariant
            i <= chars.len(),
            forall|j: int| i <= j < chars.len() ==> chars@[j] != ':',
        decreases i,
    {
        i -= 1;
    }
    if i == 0 {
        proof {
            lemma_after_last_none(chars@, ':');
        }
        return None;
    }
    proof {
        lemma_after_last(chars@, ':', i - 1);
    }
    let mut tail: Vec<char> = Vec::new();
    let mut k: usize = i;
    while k < chars.len()
        invariant
            i <= k <= chars.len(),
            tail@ == chars@.subrange(i as int, k as int),
        decreases chars.len() - k,
    {
        tail.push(chars[k]);
        assert(chars@.subrange(i as int, k + 1) =~= chars@.subrange(i as int, k as int).push(
            chars@[k as int],
        ));
        k += 1;
    }
    match parse_unsigned(&tail, 10, MAX_PORT) {
        Some(p) => Some(p as u16),
        None => None,
    }
}

/// Picks the address to bind from the command line `args`, the program's
/// name first.
pub fn bind_address(args: &Vec<String>) -> (r: Result<&String, StartupError>)
    ensures
        match r {
            Ok(address) => bind_address_spec(args.deep_view()) == Ok::<Seq<char>, StartupError>(
                address@,
            ) && *address == args[1],
            Err(e) => bind_address_spec(args.deep_view()) == Err::<Seq<char>, StartupError>(e),
        },
{
    if args.len() < 2 {
        assert(args.deep_view().len() == args.len());
        return Err(StartupError::MissingAddress);
    }
    assert(args.deep_view().len() == args.len());
    assert(args.deep_view()[1] == args[1]@);
    match port(args[1].as_str()) {
        Some(_) => Ok(&args[1]),
        None => Err(StartupError::MalformedAddress),
    }
}

} // verus!
