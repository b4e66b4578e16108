//! UTF-16, the text encoding of the Windows API.

use vstd::prelude::*;

use crate::text::chars;

verus! {

/// The Unicode scalar values.
pub open spec fn is_scalar(n: u32) -> bool {
    n < 0xD800 || 0xE000 <= n <= 0x10FFFF
}

/// `char::from_u32` gives the character with that code, for scalar values only.
pub assume_specification[ char::from_u32 ](n: u32) -> (c: Option<char>)
    ensures
        c is Some <==> is_scalar(n),
        c matches Some(v) ==> v as u32 == n,
;

/// The code units of one character: one unit, or a surrogate pair.
pub open spec fn units(c: char) -> Seq<u16> {
    let n = c as u32;
    if n < 0x10000 {
        seq![n as u16]
    } else {
        seq![
            (0xD800 + (n - 0x10000) / 0x400) as u16,
            (0xDC00 + (n - 0x10000) % 0x400) as u16,
        ]
    }
}

/// The code units of a text.
pub open spec fn encoded(s: Seq<char>) -> Seq<u16>
    decreases s.len(),
{
    if s.len() == 0 {
        Seq::empty()
    } else {
        encoded(s.drop_last()) + units(s.last())
    }
}

/// Encodes a text.
pub fn encode(s: &str) -> (r: Vec<u16>)
    ensures
        r@ == encoded(s@),
{
    let v = chars(s);
    let mut r: Vec<u16> = Vec::new();
    let mut i: usize = 0;
    assert(s@.take(0) =~= Seq::<char>::empty());
    while i < v.len()
        invariant
            i <= v@.len(),
            v@ == s@,
            r@ == encoded(s@.take(i as int)),
        decreases v@.len() - i,
    {
        let ghost before = r@;
        let n: u32 = v[i] as u32;
        if n < 0x10000 {
            r.push(n as u16);
        } else {
            let offset: u32 = n - 0x10000;
            r.push((0xD800u32 + offset / 0x400) as u16);
            r.push((0xDC00u32 + offset % 0x400) as u16);
        }
        proof {
            assert(s@.take(i + 1).drop_last() =~= s@.take(i as int));
            assert(s@.take(i + 1).last() == v@[i as int]);
            assert(r@ =~= before + units(v@[i as int]));
        }
        i = i + 1;
    }
    assert(s@.take(v@.len() as int) =~= s@);
    r
}

/// A unit that opens a surrogate pair.
pub open spec fn is_high(u: u16) -> bool {
    0xD800 <= u < 0xDC00
}

/// A unit that closes a surrogate pair.
pub open spec fn is_low(u: u16) -> bool {
    0xDC00 <= u < 0xE000
}

/// The character of a surrogate pair.
pub open spec fn pair(high: u16, low: u16) -> char {
    (0x10000 + (high - 0xD800) * 0x400 + (low - 0xDC00)) as char
}

/// The text of a row of code units; an unpaired surrogate reads as U+FFFD.
pub open spec fn decoded(u: Seq<u16>) -> Seq<char>
    decreases u.len(),
{
    if u.len() == 0 {
        Seq::empty()
    } else if !is_high(u[0]) && !is_low(u[0]) {
        seq![u[0] as char] + decoded(u.skip(1))
    } else if is_high(u[0]) && u.len() > 1 && is_low(u[1]) {
        seq![pair(u[0], u[1])] + decoded(u.skip(2))
    } else {
        seq!['\u{FFFD}'] + decoded(u.skip(1))
    }
}

/// The character with the scalar value `n`.
fn scalar(n: u32) -> (c: char)
    requires
        is_scalar(n),
    ensures
        c as u32 == n,
{
    match char::from_u32(n) {
        Some(c) => c,
        None => '\u{FFFD}',
    }
}

/// Decodes the units before position `end`.
pub fn decode(u: &[u16], end: usize) -> (s: String)
    requires
        end <= u@.len(),
    ensures
        s@ == decoded(u@.take(end as int)),
{
    let mut s = String::new();
    let mut i: usize = 0;
    let ghost all = u@.take(end as int);
    assert(all.skip(0) =~= all);
    assert(s@ + decoded(all) =~= decoded(all));
    while i < end
        invariant
            i <= end <= u@.len(),
            all == u@.take(end as int),
            s@ + decoded(all.skip(i as int)) == decoded(all),
        decreases end - i,
    {
        let ghost before = s@;
        let ghost rest = all.skip(i as int);
        let unit: u16 = u[i];
        assert(rest[0] == unit);
        let ghost mut taken: int = 1;
        let high: bool = 0xD800 <= unit && unit < 0xDC00;
        let low: bool = 0xDC00 <= unit && unit < 0xE000;
        let next: usize;
        let c: char;
        if !high && !low {
            c = scalar(unit as u32);
            next = i + 1;
        } else if high && end - i > 1 && 0xDC00 <= u[i + 1] && u[i + 1] < 0xE000 {
            let second: u16 = u[i + 1];
            assert(rest[1] == second);
            c = scalar(0x10000u32 + (unit as u32 - 0xD800) * 0x400 + (second as u32 - 0xDC00));
            next = i + 2;
        } else {
            assert(end - i > 1 ==> rest[1] == u@[i + 1]);
            c = '\u{FFFD}';
            next = i + 1;
        }
        s.push(c);
        proof {
            assert(rest.skip(next - i) =~= all.skip(next as int));
            assert(decoded(rest) == seq![c] + decoded(all.skip(next as int)));
            assert(before + (seq![c] + decoded(all.skip(next as int))) =~= before.push(c) + decoded(
                all.skip(next as int),
            ));
        }
        i = next;
    }
    assert(all.skip(end as int) =~= Seq::<u16>::empty());
    assert(s@ + Seq::<char>::empty() =~= s@);
    s
}

proof fn encoded_head(s: Seq<char>)
    requires
        s.len() > 0,
    ensures
        encoded(s) == units(s[0]) + encoded(s.skip(1)),
    decreases s.len(),
{
    if s.len() == 1 {
        assert(s.drop_last() =~= Seq::<char>::empty());
        assert(s.skip(1) =~= Seq::<char>::empty());
        assert(encoded(s) =~= units(s[0]) + encoded(s.skip(1)));
    } else {
        encoded_head(s.drop_last());
        assert(s.drop_last().skip(1) =~= s.skip(1).drop_last());
        assert(s.skip(1).last() == s.last());
        assert(encoded(s) =~= units(s[0]) + encoded(s.skip(1)));
    }
}

proof fn decoded_head(c: char, rest: Seq<u16>)
    ensures
        decoded(units(c) + rest) == seq![c] + decoded(rest),
{
    let u = units(c) + rest;
    let n = c as u32;
    if n < 0x10000 {
        assert(u[0] as char == c);
        assert(u.skip(1) =~= rest);
    } else {
        assert(u[0] == units(c)[0]);
        assert(u[1] == units(c)[1]);
        assert(pair(u[0], u[1]) == c);
        assert(u.skip(2) =~= rest);
    }
}

/// Decoding an encoded text gives the text back.
pub proof fn decode_inverts_encode(s: Seq<char>)
    ensures
        decoded(encoded(s)) == s,
    decreases s.len(),
{
    if s.len() > 0 {
        encoded_head(s);
        decode_inverts_encode(s.skip(1));
        decoded_head(s[0], encoded(s.skip(1)));
        assert(seq![s[0]] + s.skip(1) =~= s);
    } else {
        assert(decoded(encoded(s)) =~= s);
    }
}

/// The position of the first zero unit, or the length of `u`.
pub open spec fn terminator(u: Seq<u16>) -> nat
    decreases u.len(),
{
    if u.len() == 0 || u[0] == 0 {
        0
    } else {
        1 + terminator(u.skip(1))
    }
}

/// The position of the first zero unit, or the length of `u`.
pub fn find_terminator(u: &[u16]) -> (n: usize)
    ensures
        n == terminator(u@),
        n <= u@.len(),
{
    let mut i: usize = 0;
    assert(u@.skip(0) =~= u@);
    while i < u.len() && u[i] != 0
        invariant
            i <= u@.len(),
            terminator(u@) == i + terminator(u@.skip(i as int)),
        decreases u@.len() - i,
    {
        assert(u@.skip(i as int).skip(1) =~= u@.skip(i + 1));
        i = i + 1;
    }
    i
}

/// The text before the first zero unit.
pub open spec fn terminated(u: Seq<u16>) -> Seq<char> {
    decoded(u.take(terminator(u) as int))
}

/// The text before the first zero unit.
pub fn decode_terminated(u: &[u16]) -> (s: String)
    ensures
        s@ == terminated(u@),
{
    decode(u, find_terminator(u))
}

} // verus!
