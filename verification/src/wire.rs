//! Byte-level building blocks of the wire format: big-endian 16-bit integers
//! and fixed-width right-padded fields.

use vstd::prelude::*;
use vstd::utf8::encode_utf8;

verus! {

/// High byte of a 16-bit integer in big-endian order.
pub open spec fn be_hi(n: u16) -> u8 {
    (n >> 8) as u8
}

/// Low byte of a 16-bit integer in big-endian order.
pub open spec fn be_lo(n: u16) -> u8 {
    (n & 0xff) as u8
}

/// Big-endian byte representation of a 16-bit integer.
pub open spec fn be_u16(n: u16) -> Seq<u8> {
    seq![be_hi(n), be_lo(n)]
}

/// The 16-bit integer read back from two big-endian bytes.
pub open spec fn u16_from_be(hi: u8, lo: u8) -> u16 {
    ((hi as u16) << 8) | (lo as u16)
}

/// Two's-complement reinterpretation of an `i16` as the `u16` that goes on the
/// wire.
pub open spec fn u16_of_i16(n: i16) -> u16 {
    if n >= 0 {
        n as u16
    } else {
        (n + 0x10000) as u16
    }
}

/// The `i16` read back from its two's-complement wire representation.
pub open spec fn i16_from_u16(v: u16) -> i16 {
    if v < 0x8000 {
        v as i16
    } else {
        (v - 0x10000) as i16
    }
}

/// `s` cut or extended to exactly `n` bytes, extending with `fill`.
pub open spec fn right_padded(s: Seq<u8>, n: int, fill: u8) -> Seq<u8> {
    Seq::new(n as nat, |i: int| if i < s.len() { s[i] } else { fill })
}

/// A 64-byte text field: the bytes of the logical string, space-padded on the
/// right, truncated to the first 64 bytes if longer.
pub open spec fn padded_text(s: Seq<u8>) -> Seq<u8> {
    right_padded(s, 64, 0x20)
}

/// A 1024-byte chunk payload: the real bytes, zero-padded on the right.
pub open spec fn padded_chunk(s: Seq<u8>) -> Seq<u8> {
    right_padded(s, 1024, 0x00)
}

/// Two's-complement reinterpretation of an `i8` as the `u8` that goes on the
/// wire.
pub open spec fn u8_of_i8(n: i8) -> u8 {
    if n >= 0 {
        n as u8
    } else {
        (n + 0x100) as u8
    }
}

/// The `i8` read back from its two's-complement wire representation.
pub open spec fn i8_from_u8(v: u8) -> i8 {
    if v < 0x80 {
        v as i8
    } else {
        (v - 0x100) as i8
    }
}

/// UTF-8 encoding distributes over concatenation of character sequences.
pub proof fn lemma_encode_utf8_concat(a: Seq<char>, b: Seq<char>)
    ensures
        encode_utf8(a + b) == encode_utf8(a) + encode_utf8(b),
    decreases a.len(),
{
    if a.len() == 0 {
        assert(a + b =~= b);
        assert(encode_utf8(a) + encode_utf8(b) =~= encode_utf8(b));
    } else {
        assert((a + b).len() != 0);
        assert((a + b)[0] == a[0]);
        assert((a + b).drop_first() =~= a.drop_first() + b);
        lemma_encode_utf8_concat(a.drop_first(), b);
        assert(encode_utf8(a + b) =~= encode_utf8(a) + encode_utf8(b));
    }
}

/// Reading the two big-endian bytes of `n` yields `n` again.
pub proof fn lemma_be_u16_round_trip(n: u16)
    ensures
        u16_from_be(be_hi(n), be_lo(n)) == n,
{
    assert((((((n >> 8) as u8) as u16) << 8) | (((n & 0xff) as u8) as u16)) == n) by (bit_vector);
}

/// The two's-complement wire representation of an `i16` determines it.
pub proof fn lemma_i16_wire_round_trip(n: i16)
    ensures
        i16_from_u16(u16_of_i16(n)) == n,
{
}

/// The two's-complement wire representation of an `i8` determines it.
pub proof fn lemma_i8_wire_round_trip(n: i8)
    ensures
        i8_from_u8(u8_of_i8(n)) == n,
{
}

/// Padding changes nothing on input that already has the target width, and a
/// padded field reproduces a short input exactly, followed by fill bytes.
pub proof fn lemma_right_padded(s: Seq<u8>, n: int, fill: u8)
    requires
        0 <= n,
    ensures
        s.len() == n ==> right_padded(s, n, fill) == s,
        s.len() <= n ==> right_padded(s, n, fill).take(s.len() as int) == s,
        forall|i: int| s.len() <= i < n ==> right_padded(s, n, fill)[i] == fill,
{
    if s.len() == n {
        assert(right_padded(s, n, fill) =~= s);
    }
    if s.len() <= n {
        assert(right_padded(s, n, fill).take(s.len() as int) =~= s);
    }
}

/// Appends `n` as two big-endian bytes.
pub fn push_be_u16(w: &mut Vec<u8>, n: u16)
    ensures
        final(w)@ == old(w)@ + be_u16(n),
{
    let hi = (n >> 8) as u8;
    let lo = (n & 0xff) as u8;
    proof {
        assert(n >> 8 < 256 && n & 0xff < 256) by (bit_vector);
    }
    w.push(hi);
    w.push(lo);
    proof {
        assert(w@ =~= old(w)@ + be_u16(n));
    }
}

/// Appends an `i16` as two big-endian bytes of its two's-complement value.
pub fn push_be_i16(w: &mut Vec<u8>, n: i16)
    ensures
        final(w)@ == old(w)@ + be_u16(u16_of_i16(n)),
{
    let v: u16 = if n >= 0 {
        n as u16
    } else {
        ((n as i32) + 0x10000) as u16
    };
    push_be_u16(w, v);
}

/// Appends `s` cut or extended to exactly `n` bytes, extending with `fill`.
pub fn push_right_padded(w: &mut Vec<u8>, s: &[u8], n: usize, fill: u8)
    ensures
        final(w)@ == old(w)@ + right_padded(s@, n as int, fill),
{
    let mut i: usize = 0;
    while i < n
        invariant
            i <= n,
            w@ == old(w)@ + right_padded(s@, n as int, fill).take(i as int),
        decreases n - i,
    {
        let b = if i < s.len() {
            s[i]
        } else {
            fill
        };
        w.push(b);
        proof {
            assert(w@ =~= old(w)@ + right_padded(s@, n as int, fill).take(i + 1));
        }
        i += 1;
    }
    proof {
        assert(right_padded(s@, n as int, fill).take(n as int) =~= right_padded(
            s@,
            n as int,
            fill,
        ));
    }
}

} // verus!
