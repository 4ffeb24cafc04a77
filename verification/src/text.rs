//! Strings as sequences of characters.

use vstd::prelude::*;

verus! {

/// Whether `n` is a Unicode scalar value: a code point that is no surrogate.
pub open spec fn is_scalar(n: int) -> bool {
    0 <= n <= 0xD7FF || 0xE000 <= n <= 0x10FFFF
}

/// `char::from_u32`: the character with code point `n` where `n` is a
/// Unicode scalar value, and none where it is a surrogate or lies above
/// `0x10FFFF`.
pub assume_specification[ char::from_u32 ](n: u32) -> (r: Option<char>)
    ensures
        r == (if is_scalar(n as int) {
            Some(n as char)
        } else {
            None
        }),
;

/// `String::push`: appends the one character `c` to the end of `s`.
#[verifier::external_body]
pub(crate) fn push_char(s: &mut String, c: char)
    ensures
        final(s)@ == old(s)@.push(c),
{
    s.push(c)
}

/// The characters of `s`, in order.
pub fn chars_of(s: &str) -> (v: Vec<char>)
    ensures
        v@ == s@,
{
    let mut v: Vec<char> = Vec::new();
    for c in it: s.chars()
        invariant
            it.seq() == s@,
            v@ == it.seq().take(it.index()),
    {
        v.push(c);
        assert(it.seq().take(it.index() + 1) =~= it.seq().take(it.index()).push(c));
    }
    assert(v@ =~= s@);
    v
}

/// The string made of the characters of `v`, in order.
pub fn string_of(v: &Vec<char>) -> (s: String)
    ensures
        s@ == v@,
{
    let mut s = String::new();
    let mut i: usize = 0;
    while i < v.len()
        invariant
            i <= v.len(),
            s@ == v@.take(i as int),
        decreases v.len() - i,
    {
        push_char(&mut s, v[i]);
        assert(v@.take(i + 1) =~= v@.take(i as int).push(v[i as int]));
        i += 1;
    }
    assert(v@.take(i as int) =~= v@);
    s
}

/// `s` cut at the first `sep`: what stands before it and what stands after
/// it. None if `sep` does not occur in `s`.
pub open spec fn split_first(s: Seq<char>, sep: char) -> Option<(Seq<char>, Seq<char>)>
    decreases s.len(),
{
    if s.len() == 0 {
        None
    } else if s.first() == sep {
        Some((Seq::empty(), s.drop_first()))
    } else {
        match split_first(s.drop_first(), sep) {
            Some((left, right)) => Some((seq![s.first()] + left, right)),
            None => None,
        }
    }
}

/// Whether `i` is where `sep` first occurs in `s`.
pub open spec fn is_first_at(s: Seq<char>, sep: char, i: int) -> bool {
    &&& 0 <= i < s.len()
    &&& s[i] == sep
    &&& forall|j: int| 0 <= j < i ==> s[j] != sep
}

/// Cutting at the first separator, said without recursion: the cut is at
/// the one place where `sep` stands with no `sep` before it, and there is
/// no cut exactly when `sep` stands nowhere.
pub proof fn lemma_split_first(s: Seq<char>, sep: char)
    ensures
        match split_first(s, sep) {
            Some((left, right)) => {
                &&& is_first_at(s, sep, left.len() as int)
                &&& left == s.subrange(0, left.len() as int)
                &&& right == s.subrange(left.len() as int + 1, s.len() as int)
                &&& s == left + seq![sep] + right
            },
            None => forall|j: int| 0 <= j < s.len() ==> s[j] != sep,
        },
    decreases s.len(),
{
    if s.len() == 0 {
    } else if s.first() == sep {
        let right = s.drop_first();
        assert(Seq::<char>::empty() =~= s.subrange(0, 0));
        assert(right =~= s.subrange(1, s.len() as int));
        assert(s =~= Seq::<char>::empty() + seq![sep] + right);
    } else {
        let rest = s.drop_first();
        lemma_split_first(rest, sep);
        match split_first(rest, sep) {
            Some((l, r)) => {
                let left = seq![s.first()] + l;
                assert forall|j: int| 0 <= j < left.len() implies s[j] != sep by {
                    if j > 0 {
                        assert(rest[j - 1] == s[j]);
                    }
                }
                assert(s[left.len() as int] == rest[l.len() as int]);
                assert(left =~= s.subrange(0, left.len() as int));
                assert(r =~= s.subrange(left.len() as int + 1, s.len() as int));
                assert(s =~= left + seq![sep] + r);
            },
            None => {
                assert forall|j: int| 0 <= j < s.len() implies s[j] != sep by {
                    if j > 0 {
                        assert(rest[j - 1] == s[j]);
                    }
                }
            },
        }
    }
}

/// Where `sep` first occurs in a sequence fixes the cut.
pub proof fn lemma_split_first_at(s: Seq<char>, sep: char, i: int)
    requires
        is_first_at(s, sep, i),
    ensures
        split_first(s, sep) == Some((s.subrange(0, i), s.subrange(i + 1, s.len() as int))),
{
    lemma_split_first(s, sep);
    match split_first(s, sep) {
        Some((left, right)) => {
            let k = left.len() as int;
            if k < i {
                assert(s[k] != sep);
            }
            if i < k {
                assert(s[i] != sep);
            }
        },
        None => {
            assert(s[i] != sep);
        },
    }
}

/// Where `sep` first occurs among the characters `v`, if it occurs.
pub fn find_first(v: &Vec<char>, sep: char) -> (r: Option<usize>)
    ensures
        match r {
            Some(i) => is_first_at(v@, sep, i as int),
            None => forall|j: int| 0 <= j < v@.len() ==> v@[j] != sep,
        },
{
    let mut i: usize = 0;
    while i < v.len()
        invariant
            i <= v.len(),
            forall|j: int| 0 <= j < i ==> v@[j] != sep,
        decreases v.len() - i,
    {
        if v[i] == sep {
            return Some(i);
        }
        i += 1;
    }
    None
}

} // verus!
