//! The grid's base-32 text: five bits to a character, lower case, no padding.

use vstd::prelude::*;

verus! {

/// The number of characters that `n` bytes are written with: eight bits to a byte,
/// five to a character, rounded up.
pub open spec fn encoded_len(n: nat) -> nat {
    (8 * n + 4) / 5
}

/// The byte at index `i`, and zero past the end: the last character is filled up
/// with zero bits.
pub open spec fn byte_at(bytes: Seq<u8>, i: int) -> u8 {
    if 0 <= i < bytes.len() {
        bytes[i]
    } else {
        0
    }
}

/// Bit `p` of `b`, counted from the most significant one, as 0 or 1.
pub open spec fn bit_of(b: u8, p: int) -> u8 {
    (b >> ((7 - p) as u8)) & 1
}

/// Bit `k` of the bit string that `bytes` make up, most significant bit of each
/// byte first.
pub open spec fn stream_bit(bytes: Seq<u8>, k: int) -> u8 {
    bit_of(byte_at(bytes, k / 8), k % 8)
}

/// The number that the five bits from bit `5 * j` on denote, the first of them
/// weighing most.
pub open spec fn quintet(bytes: Seq<u8>, j: int) -> int {
    16 * stream_bit(bytes, 5 * j) + 8 * stream_bit(bytes, 5 * j + 1) + 4 * stream_bit(
        bytes,
        5 * j + 2,
    ) + 2 * stream_bit(bytes, 5 * j + 3) + stream_bit(bytes, 5 * j + 4)
}

/// The character for a five-bit number: `a` to `z` for 0 to 25, `2` to `7` for 26 to 31.
pub open spec fn symbol(v: int) -> u8 {
    if v < 26 {
        (97 + v) as u8
    } else {
        (24 + v) as u8
    }
}

/// Whether `c` is one of the thirty-two characters of the alphabet.
pub open spec fn is_symbol(c: u8) -> bool {
    (97 <= c <= 122) || (50 <= c <= 55)
}

/// The text of `bytes`: one character for each five bits.
pub open spec fn b2a_spec(bytes: Seq<u8>) -> Seq<u8> {
    Seq::new(encoded_len(bytes.len()), |j: int| symbol(quintet(bytes, j)))
}

/// The sixteen bits of two adjacent bytes, the first byte in the upper half.
pub open spec fn window(b0: u8, b1: u8) -> u16 {
    ((b0 as u16) << 8) | (b1 as u16)
}

/// Bit `p` of two adjacent bytes, counted through both from the most significant one.
pub open spec fn window_bit(b0: u8, b1: u8, p: int) -> u8 {
    if p < 8 {
        bit_of(b0, p)
    } else {
        bit_of(b1, p - 8)
    }
}

/// A bit is 0 or 1.
proof fn lemma_bit_range(b: u8, p: int)
    requires
        0 <= p < 8,
    ensures
        bit_of(b, p) <= 1,
{
    let s = (7 - p) as u8;
    assert((b >> s) & 1 <= 1) by (bit_vector);
}

/// A bit of the sixteen is the bit of the byte that it lies in.
proof fn lemma_window_bit(b0: u8, b1: u8, p: u16)
    requires
        p < 16,
    ensures
        (window(b0, b1) >> (15 - p) as u16) & 1 == window_bit(b0, b1, p as int) as u16,
{
    let w = window(b0, b1);
    let s = (15 - p) as u16;
    if p < 8 {
        let t = (7 - p) as u8;
        assert((w >> s) & 1 == ((b0 >> t) & 1) as u16) by (bit_vector)
            requires
                w == ((b0 as u16) << 8) | (b1 as u16),
                8 <= s < 16,
                t as u16 == s - 8,
        ;
    } else {
        let t = (15 - p) as u8;
        assert((w >> s) & 1 == ((b1 >> t) & 1) as u16) by (bit_vector)
            requires
                w == ((b0 as u16) << 8) | (b1 as u16),
                s < 8,
                t as u16 == s,
        ;
    }
}

/// Five bits cut out of two adjacent bytes are the five bits of the stream there.
proof fn lemma_window_quintet(b0: u8, b1: u8, r: u16)
    requires
        r < 8,
    ensures
        (window(b0, b1) >> (11 - r) as u16) & 31 == 16 * window_bit(b0, b1, r as int) + 8
            * window_bit(b0, b1, r + 1) + 4 * window_bit(b0, b1, r + 2) + 2 * window_bit(
            b0,
            b1,
            r + 3,
        ) + window_bit(b0, b1, r + 4),
{
    let w = window(b0, b1);
    let s = (11 - r) as u16;
    let s1 = (s + 1) as u16;
    let s2 = (s + 2) as u16;
    let s3 = (s + 3) as u16;
    let s4 = (s + 4) as u16;
    assert((w >> s) & 31 == 16 * ((w >> s4) & 1) + 8 * ((w >> s3) & 1) + 4 * ((w >> s2) & 1) + 2
        * ((w >> s1) & 1) + ((w >> s) & 1)) by (bit_vector)
        requires
            s < 12,
            s1 == s + 1,
            s2 == s + 2,
            s3 == s + 3,
            s4 == s + 4,
    ;
    lemma_window_bit(b0, b1, r);
    lemma_window_bit(b0, b1, (r + 1) as u16);
    lemma_window_bit(b0, b1, (r + 2) as u16);
    lemma_window_bit(b0, b1, (r + 3) as u16);
    lemma_window_bit(b0, b1, (r + 4) as u16);
}

/// A five-bit number is below 32, and its character is in the alphabet.
pub proof fn lemma_quintet_symbol(bytes: Seq<u8>, j: int)
    requires
        0 <= j,
    ensures
        0 <= quintet(bytes, j) < 32,
        is_symbol(symbol(quintet(bytes, j))),
{
    lemma_bit_range(byte_at(bytes, (5 * j) / 8), (5 * j) % 8);
    lemma_bit_range(byte_at(bytes, (5 * j + 1) / 8), (5 * j + 1) % 8);
    lemma_bit_range(byte_at(bytes, (5 * j + 2) / 8), (5 * j + 2) % 8);
    lemma_bit_range(byte_at(bytes, (5 * j + 3) / 8), (5 * j + 3) % 8);
    lemma_bit_range(byte_at(bytes, (5 * j + 4) / 8), (5 * j + 4) % 8);
}

/// Every text has the length that its bytes call for, and holds characters of the
/// alphabet only.
pub proof fn lemma_b2a_text(bytes: Seq<u8>)
    ensures
        b2a_spec(bytes).len() == encoded_len(bytes.len()),
        5 * b2a_spec(bytes).len() >= 8 * bytes.len() > 5 * b2a_spec(bytes).len() - 5,
        forall|j: int| 0 <= j < b2a_spec(bytes).len() ==> is_symbol(#[trigger] b2a_spec(bytes)[j]),
{
    assert forall|j: int| 0 <= j < b2a_spec(bytes).len() implies is_symbol(
        #[trigger] b2a_spec(bytes)[j],
    ) by {
        lemma_quintet_symbol(bytes, j);
    }
}

/// A byte is known by its eight bits.
proof fn lemma_bits_name_byte(a: u8, b: u8)
    requires
        forall|p: int| 0 <= p < 8 ==> bit_of(a, p) == bit_of(b, p),
    ensures
        a == b,
{
    assert(bit_of(a, 0) == bit_of(b, 0));
    assert(bit_of(a, 1) == bit_of(b, 1));
    assert(bit_of(a, 2) == bit_of(b, 2));
    assert(bit_of(a, 3) == bit_of(b, 3));
    assert(bit_of(a, 4) == bit_of(b, 4));
    assert(bit_of(a, 5) == bit_of(b, 5));
    assert(bit_of(a, 6) == bit_of(b, 6));
    assert(bit_of(a, 7) == bit_of(b, 7));
    assert(a == b) by (bit_vector)
        requires
            (a >> 7u8) & 1 == (b >> 7u8) & 1,
            (a >> 6u8) & 1 == (b >> 6u8) & 1,
            (a >> 5u8) & 1 == (b >> 5u8) & 1,
            (a >> 4u8) & 1 == (b >> 4u8) & 1,
            (a >> 3u8) & 1 == (b >> 3u8) & 1,
            (a >> 2u8) & 1 == (b >> 2u8) & 1,
            (a >> 1u8) & 1 == (b >> 1u8) & 1,
            (a >> 0u8) & 1 == (b >> 0u8) & 1,
    ;
}

/// Five bits are known by the number they denote.
proof fn lemma_quintet_bits(x: Seq<u8>, y: Seq<u8>, j: int)
    requires
        0 <= j,
        quintet(x, j) == quintet(y, j),
    ensures
        forall|k: int| 5 * j <= k < 5 * j + 5 ==> #[trigger] stream_bit(x, k) == stream_bit(y, k),
{
    lemma_bit_range(byte_at(x, (5 * j) / 8), (5 * j) % 8);
    lemma_bit_range(byte_at(x, (5 * j + 1) / 8), (5 * j + 1) % 8);
    lemma_bit_range(byte_at(x, (5 * j + 2) / 8), (5 * j + 2) % 8);
    lemma_bit_range(byte_at(x, (5 * j + 3) / 8), (5 * j + 3) % 8);
    lemma_bit_range(byte_at(x, (5 * j + 4) / 8), (5 * j + 4) % 8);
    lemma_bit_range(byte_at(y, (5 * j) / 8), (5 * j) % 8);
    lemma_bit_range(byte_at(y, (5 * j + 1) / 8), (5 * j + 1) % 8);
    lemma_bit_range(byte_at(y, (5 * j + 2) / 8), (5 * j + 2) % 8);
    lemma_bit_range(byte_at(y, (5 * j + 3) / 8), (5 * j + 3) % 8);
    lemma_bit_range(byte_at(y, (5 * j + 4) / 8), (5 * j + 4) % 8);
}

/// The text says what the bytes were: two byte strings with the same text are the
/// same, so the text can be read back in one way only.
pub proof fn lemma_b2a_injective(x: Seq<u8>, y: Seq<u8>)
    requires
        b2a_spec(x) == b2a_spec(y),
    ensures
        x == y,
{
    assert(b2a_spec(x).len() == encoded_len(x.len()));
    assert(b2a_spec(y).len() == encoded_len(y.len()));
    assert(x.len() == y.len());
    assert forall|i: int| 0 <= i < x.len() implies x[i] == y[i] by {
        assert forall|p: int| 0 <= p < 8 implies bit_of(x[i], p) == bit_of(y[i], p) by {
            let k = 8 * i + p;
            let j = k / 5;
            let t = k % 5;
            assert(0 <= j < encoded_len(x.len()));
            assert(b2a_spec(x)[j] == symbol(quintet(x, j)));
            assert(b2a_spec(y)[j] == symbol(quintet(y, j)));
            lemma_quintet_symbol(x, j);
            lemma_quintet_symbol(y, j);
            assert(quintet(x, j) == quintet(y, j));
            lemma_quintet_bits(x, y, j);
            assert(5 * j + t == k);
            assert(stream_bit(x, k) == stream_bit(y, k));
            assert(k / 8 == i && k % 8 == p);
        }
        lemma_bits_name_byte(x[i], y[i]);
    }
    assert(x =~= y);
}

/// Writes `bytes` as text.
pub fn b2a(bytes: &[u8]) -> (text: Vec<u8>)
    ensures
        text@ == b2a_spec(bytes@),
        text@.len() == encoded_len(bytes@.len()),
        forall|j: int| 0 <= j < text@.len() ==> is_symbol(#[trigger] text@[j]),
{
    let n = bytes.len();
    let mut text: Vec<u8> = Vec::new();
    let mut q: usize = 0;
    let mut r: u16 = 0;
    let ghost mut j: int = 0;
    while q < n
        invariant
            n == bytes@.len(),
            q <= n,
            r < 8,
            0 <= j,
            8 * q + r == 5 * j,
            5 * j < 8 * n + 5,
            text@.len() == j,
            forall|i: int| 0 <= i < j ==> #[trigger] text@[i] == symbol(quintet(bytes@, i)),
        decreases 8 * n + 5 - 5 * j,
    {
        let b0: u8 = bytes[q];
        let b1: u8 = if q + 1 < n {
            bytes[q + 1]
        } else {
            0
        };
        let w: u16 = ((b0 as u16) << 8) | (b1 as u16);
        let v: u16 = (w >> (11 - r)) & 31;
        proof {
            lemma_window_quintet(b0, b1, r);
            lemma_quintet_symbol(bytes@, j);
            assert(b0 == byte_at(bytes@, q as int));
            assert(b1 == byte_at(bytes@, q + 1));
            assert(v == quintet(bytes@, j));
        }
        let c: u8 = if v < 26 {
            97 + v as u8
        } else {
            24 + v as u8
        };
        text.push(c);
        r = r + 5;
        if r >= 8 {
            r = r - 8;
            q = q + 1;
        }
        proof {
            j = j + 1;
        }
    }
    proof {
        lemma_b2a_text(bytes@);
        assert(j == encoded_len(n as nat));
        assert(text@ =~= b2a_spec(bytes@));
    }
    text
}

} // verus!
