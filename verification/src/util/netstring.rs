//! Netstrings: a byte string framed by its decimal length and a comma.

use vstd::prelude::*;

verus! {

/// The byte `:` that ends the length of a netstring.
pub const COLON: u8 = 58;

/// The byte `,` that ends a netstring.
pub const COMMA: u8 = 44;

/// The ASCII code of the decimal digit `d`.
pub open spec fn digit_byte(d: nat) -> u8 {
    (48 + d) as u8
}

/// Whether `b` is the ASCII code of a decimal digit.
pub open spec fn is_digit(b: u8) -> bool {
    48 <= b <= 57
}

/// The decimal numeral of `n` in ASCII, without leading zeros.
pub open spec fn decimal_spec(n: nat) -> Seq<u8>
    decreases n,
{
    if n < 10 {
        seq![digit_byte(n)]
    } else {
        decimal_spec(n / 10).push(digit_byte(n % 10))
    }
}

/// The netstring of `s`: its length in decimal, a colon, `s` itself, a comma.
pub open spec fn netstring_spec(s: Seq<u8>) -> Seq<u8> {
    decimal_spec(s.len()) + seq![COLON] + s + seq![COMMA]
}

/// The number that a sequence of ASCII digits denotes in decimal.
pub open spec fn decimal_value(digits: Seq<u8>) -> nat
    decreases digits.len(),
{
    if digits.len() == 0 {
        0
    } else {
        decimal_value(digits.drop_last()) * 10 + (digits.last() - 48) as nat
    }
}

/// The index of the first colon in `bytes`, or the length of `bytes` where it holds none.
pub open spec fn first_colon(bytes: Seq<u8>) -> int
    decreases bytes.len(),
{
    if bytes.len() == 0 || bytes[0] == COLON {
        0
    } else {
        1 + first_colon(bytes.drop_first())
    }
}

/// Reads one netstring from the front of `bytes`: the length up to the first colon,
/// then as many bytes, then a comma. Gives the bytes that were framed and all that
/// follows the comma, or `None` where `bytes` does not start with a netstring.
pub open spec fn split_netstring(bytes: Seq<u8>) -> Option<(Seq<u8>, Seq<u8>)> {
    let colon = first_colon(bytes);
    let n = decimal_value(bytes.take(colon)) as int;
    let comma = colon + 1 + n;
    if 0 < colon && comma < bytes.len() && bytes[comma] == COMMA && (forall|i: int|
        0 <= i < colon ==> is_digit(#[trigger] bytes[i])) {
        Some((bytes.subrange(colon + 1, comma), bytes.skip(comma + 1)))
    } else {
        None
    }
}

/// The decimal numeral of `n`.
pub fn decimal(n: usize) -> (digits: Vec<u8>)
    ensures
        digits@ == decimal_spec(n as nat),
    decreases n,
{
    if n < 10 {
        let mut digits: Vec<u8> = Vec::new();
        digits.push(48u8 + n as u8);
        digits
    } else {
        let mut digits = decimal(n / 10);
        digits.push(48u8 + (n % 10) as u8);
        digits
    }
}

/// Appends the bytes of `tail` to `out`.
pub fn append_bytes(out: &mut Vec<u8>, tail: &[u8])
    ensures
        final(out)@ == old(out)@ + tail@,
{
    let mut i: usize = 0;
    while i < tail.len()
        invariant
            i <= tail@.len(),
            out@ == old(out)@ + tail@.take(i as int),
        decreases tail@.len() - i,
    {
        out.push(tail[i]);
        i += 1;
        assert(tail@.take(i as int) == tail@.take(i - 1).push(tail@[i - 1]));
    }
    assert(tail@.take(i as int) == tail@);
}

/// Frames `s` as a netstring. Nothing in `s` is escaped: the length says where it ends.
pub fn netstring(s: &[u8]) -> (encoded: Vec<u8>)
    ensures
        encoded@ == netstring_spec(s@),
{
    let mut encoded = decimal(s.len());
    encoded.push(COLON);
    append_bytes(&mut encoded, s);
    encoded.push(COMMA);
    encoded
}

/// A decimal numeral holds digits only, and at least one.
pub proof fn lemma_decimal_digits(n: nat)
    ensures
        decimal_spec(n).len() > 0,
        forall|i: int| 0 <= i < decimal_spec(n).len() ==> is_digit(#[trigger] decimal_spec(n)[i]),
    decreases n,
{
    if n >= 10 {
        lemma_decimal_digits(n / 10);
    }
}

/// Reading a decimal numeral gives back the number it was written for.
pub proof fn lemma_decimal_value(n: nat)
    ensures
        decimal_value(decimal_spec(n)) == n,
    decreases n,
{
    let digits = decimal_spec(n);
    if n >= 10 {
        lemma_decimal_value(n / 10);
        assert(digits.drop_last() == decimal_spec(n / 10));
        assert(digits.last() == digit_byte(n % 10));
    } else {
        assert(digits.drop_last() == Seq::<u8>::empty());
        assert(decimal_value(digits.drop_last()) == 0);
        assert(digits.last() == digit_byte(n));
    }
}

/// Where `head` holds no colon, the first colon of `head`, a colon and `tail` is at
/// the length of `head`.
pub proof fn lemma_first_colon(head: Seq<u8>, tail: Seq<u8>)
    requires
        forall|i: int| 0 <= i < head.len() ==> #[trigger] head[i] != COLON,
    ensures
        first_colon(head + seq![COLON] + tail) == head.len(),
    decreases head.len(),
{
    let all = head + seq![COLON] + tail;
    if head.len() > 0 {
        assert(all[0] == head[0]);
        assert(all.drop_first() == head.drop_first() + seq![COLON] + tail);
        lemma_first_colon(head.drop_first(), tail);
    } else {
        assert(all[0] == COLON);
    }
}

/// A netstring followed by anything is read back as what was framed and what
/// followed: the frame ends where its length says, whatever bytes it holds.
pub proof fn lemma_split_netstring(s: Seq<u8>, rest: Seq<u8>)
    ensures
        split_netstring(netstring_spec(s) + rest) == Some((s, rest)),
{
    let d = decimal_spec(s.len());
    let all = netstring_spec(s) + rest;
    lemma_decimal_digits(s.len());
    lemma_decimal_value(s.len());
    assert(all == d + seq![COLON] + (s + seq![COMMA] + rest));
    lemma_first_colon(d, s + seq![COMMA] + rest);
    let colon = first_colon(all);
    assert(colon == d.len());
    assert(all.take(colon) == d);
    let comma = colon + 1 + s.len();
    assert(all[comma] == COMMA);
    assert(all.subrange(colon + 1, comma) == s);
    assert(all.skip(comma + 1) == rest);
    assert forall|i: int| 0 <= i < colon implies is_digit(#[trigger] all[i]) by {
        assert(all[i] == d[i]);
    }
}

/// Framing and reading back recovers every byte string exactly.
pub proof fn lemma_netstring_round_trip(s: Seq<u8>)
    ensures
        split_netstring(netstring_spec(s)) == Some((s, Seq::<u8>::empty())),
{
    lemma_split_netstring(s, Seq::empty());
    assert(netstring_spec(s) + Seq::<u8>::empty() == netstring_spec(s));
}

/// Two framed strings, each followed by a payload, agree as byte strings only where
/// both the framed strings and the payloads agree.
pub proof fn lemma_netstring_prefix_free(s1: Seq<u8>, rest1: Seq<u8>, s2: Seq<u8>, rest2: Seq<u8>)
    requires
        netstring_spec(s1) + rest1 == netstring_spec(s2) + rest2,
    ensures
        s1 == s2,
        rest1 == rest2,
{
    lemma_split_netstring(s1, rest1);
    lemma_split_netstring(s2, rest2);
}

} // verus!
