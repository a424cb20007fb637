//! Little-endian integer conversions and hex rendering for wire data.
//!
//! Every multi-byte integer on the wire (nonce, timestamp) is little-endian.
//! Timestamps are signed 64-bit millisecond counts carried in two's
//! complement, so the signed conversions are defined here on top of the
//! unsigned ones from `vstd::bytes`.

use vstd::prelude::*;
use vstd::bytes::{spec_u64_to_le_bytes, spec_u64_from_le_bytes};
use vstd::bytes::{u64_to_le_bytes, u64_from_le_bytes};
use vstd::bytes::lemma_auto_spec_u64_to_from_le_bytes;

verus! {

/// The unsigned 64-bit value that carries `x` in two's complement.
pub open spec fn spec_i64_to_u64(x: i64) -> u64 {
    if x >= 0 {
        x as u64
    } else {
        (x + 0x1_0000_0000_0000_0000) as u64
    }
}

/// The signed value carried by `x` read as two's complement.
pub open spec fn spec_u64_to_i64(x: u64) -> i64 {
    if x < 0x8000_0000_0000_0000 {
        x as i64
    } else {
        (x - 0x1_0000_0000_0000_0000) as i64
    }
}

/// The eight little-endian bytes of a signed 64-bit value.
pub open spec fn spec_i64_to_le_bytes(x: i64) -> Seq<u8> {
    spec_u64_to_le_bytes(spec_i64_to_u64(x))
}

/// The signed 64-bit value read from eight little-endian bytes.
pub open spec fn spec_i64_from_le_bytes(s: Seq<u8>) -> i64
    recommends
        s.len() == 8,
{
    spec_u64_to_i64(spec_u64_from_le_bytes(s))
}

/// Writing a signed 64-bit value and reading it back is the identity.
pub proof fn lemma_i64_le_bytes_roundtrip(x: i64)
    ensures
        spec_i64_to_le_bytes(x).len() == 8,
        spec_i64_from_le_bytes(spec_i64_to_le_bytes(x)) == x,
{
    lemma_auto_spec_u64_to_from_le_bytes();
}

/// The eight little-endian bytes of an unsigned 64-bit value.
pub fn u64_bytes(number: u64) -> (bytes: Vec<u8>)
    ensures
        bytes@ == spec_u64_to_le_bytes(number),
        bytes@.len() == 8,
{
    u64_to_le_bytes(number)
}

/// The eight little-endian bytes of a signed 64-bit value.
pub fn i64_bytes(number: i64) -> (bytes: Vec<u8>)
    ensures
        bytes@ == spec_i64_to_le_bytes(number),
        bytes@.len() == 8,
{
    let u: u64 = if number >= 0 {
        number as u64
    } else {
        (((number + 9223372036854775807i64) + 1) as u64) + 9223372036854775808u64
    };
    assert(u == spec_i64_to_u64(number));
    u64_bytes(u)
}

/// The unsigned 64-bit value read from eight little-endian bytes.
pub fn bytes_u64(bytes: &Vec<u8>) -> (number: u64)
    requires
        bytes@.len() == 8,
    ensures
        number == spec_u64_from_le_bytes(bytes@),
{
    u64_from_le_bytes(bytes.as_slice())
}

/// The signed 64-bit value read from eight little-endian bytes.
pub fn bytes_i64(bytes: &Vec<u8>) -> (number: i64)
    requires
        bytes@.len() == 8,
    ensures
        number == spec_i64_from_le_bytes(bytes@),
{
    let u: u64 = bytes_u64(bytes);
    if u < 9223372036854775808u64 {
        u as i64
    } else {
        ((u - 9223372036854775808u64) as i64) + (-9223372036854775807i64 - 1)
    }
}

/// Copy the bytes of `src` onto the end of `dst`.
pub fn push_all(dst: &mut Vec<u8>, src: &Vec<u8>)
    ensures
        final(dst)@ == old(dst)@ + src@,
{
    let mut i: usize = 0;
    while i < src.len()
        invariant
            i <= src@.len(),
            dst@ == old(dst)@ + src@.take(i as int),
        decreases src@.len() - i,
    {
        dst.push(src[i]);
        proof {
            assert(old(dst)@ + src@.take(i as int) + seq![src@[i as int]]
                =~= old(dst)@ + src@.take(i + 1));
        }
        i = i + 1;
    }
    proof {
        assert(src@.take(src@.len() as int) =~= src@);
    }
}

/// A fresh vector holding the same bytes as `src`.
pub fn clone_bytes(src: &Vec<u8>) -> (r: Vec<u8>)
    ensures
        r@ == src@,
{
    let mut r: Vec<u8> = Vec::new();
    push_all(&mut r, src);
    proof {
        assert(Seq::<u8>::empty() + src@ =~= src@);
    }
    r
}

/// A fresh vector holding `v[start..end]`.
pub fn subvec(v: &Vec<u8>, start: usize, end: usize) -> (r: Vec<u8>)
    requires
        start <= end,
        end <= v@.len(),
    ensures
        r@ == v@.subrange(start as int, end as int),
{
    let mut r: Vec<u8> = Vec::new();
    let mut i: usize = start;
    while i < end
        invariant
            start <= i <= end,
            end <= v@.len(),
            r@ == v@.subrange(start as int, i as int),
        decreases end - i,
    {
        r.push(v[i]);
        proof {
            assert(v@.subrange(start as int, i as int) + seq![v@[i as int]]
                =~= v@.subrange(start as int, i + 1));
        }
        i = i + 1;
    }
    r
}

/// Byte-for-byte equality of two vectors.
pub fn bytes_eq(a: &Vec<u8>, b: &Vec<u8>) -> (r: bool)
    ensures
        r == (a@ == b@),
{
    if a.len() != b.len() {
        return false;
    }
    let mut i: usize = 0;
    while i < a.len()
        invariant
            i <= a@.len(),
            a@.len() == b@.len(),
            forall|j: int| 0 <= j < i ==> a@[j] == b@[j],
        decreases a@.len() - i,
    {
        if a[i] != b[i] {
            return false;
        }
        i = i + 1;
    }
    proof {
        assert(a@ =~= b@);
    }
    true
}

/// The hex digit (lower case ASCII) for a value below 16.
pub open spec fn spec_hex_digit(n: u8) -> u8
    recommends
        n < 16,
{
    if n < 10 {
        (0x30 + n) as u8
    } else {
        (0x57 + n) as u8
    }
}

/// The ASCII rendering of a byte string as space-separated two-digit hex
/// pairs, as shown to the operator next to binary messages.
pub open spec fn spec_hex_of(v: Seq<u8>) -> Seq<u8>
    decreases v.len(),
{
    if v.len() == 0 {
        Seq::empty()
    } else if v.len() == 1 {
        seq![spec_hex_digit(v[0] / 16), spec_hex_digit(v[0] % 16)]
    } else {
        seq![spec_hex_digit(v[0] / 16), spec_hex_digit(v[0] % 16), 0x20u8]
            + spec_hex_of(v.drop_first())
    }
}

proof fn lemma_hex_of_push(v: Seq<u8>, b: u8)
    ensures
        spec_hex_of(v.push(b)) == if v.len() == 0 {
            seq![spec_hex_digit(b / 16), spec_hex_digit(b % 16)]
        } else {
            spec_hex_of(v) + seq![0x20u8, spec_hex_digit(b / 16), spec_hex_digit(b % 16)]
        },
    decreases v.len(),
{
    let w = v.push(b);
    if v.len() == 0 {
        assert(w.len() == 1);
        assert(w[0] == b);
        assert(spec_hex_of(w) =~= seq![spec_hex_digit(b / 16), spec_hex_digit(b % 16)]);
    } else {
        assert(w.len() >= 2);
        assert(w[0] == v[0]);
        assert(w.drop_first() =~= v.drop_first().push(b));
        lemma_hex_of_push(v.drop_first(), b);
        assert(spec_hex_of(w)
            =~= spec_hex_of(v) + seq![0x20u8, spec_hex_digit(b / 16), spec_hex_digit(b % 16)]);
    }
}

/// The hex rendering of `v`, as ASCII bytes.
pub fn bytes2hex(v: &Vec<u8>) -> (r: Vec<u8>)
    ensures
        r@ == spec_hex_of(v@),
{
    let mut r: Vec<u8> = Vec::new();
    let mut x: usize = 0;
    while x < v.len()
        invariant
            x <= v@.len(),
            r@ == spec_hex_of(v@.take(x as int)),
        decreases v@.len() - x,
    {
        let b = v[x];
        if x > 0 {
            r.push(0x20);
        }
        r.push(hex_digit(b / 16));
        r.push(hex_digit(b % 16));
        proof {
            assert(v@.take(x as int).push(v@[x as int]) =~= v@.take(x + 1));
            lemma_hex_of_push(v@.take(x as int), v@[x as int]);
            assert(r@ =~= spec_hex_of(v@.take(x + 1)));
        }
        x = x + 1;
    }
    proof {
        assert(v@.take(v@.len() as int) =~= v@);
    }
    r
}

/// The executable hex digit for a value below 16.
pub fn hex_digit(n: u8) -> (r: u8)
    requires
        n < 16,
    ensures
        r == spec_hex_digit(n),
{
    if n < 10 {
        0x30 + n
    } else {
        0x57 + n
    }
}

} // verus!
