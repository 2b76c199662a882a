//! Big-endian fields and byte-buffer helpers.
use vstd::prelude::*;

use crate::addr::{Ipv4Addr, MacAddr};

verus! {

/// Big-endian bytes of a 16-bit value.
pub open spec fn be16(v: int) -> Seq<u8> {
    seq![(v / 256) as u8, (v % 256) as u8]
}

/// Big-endian bytes of a 32-bit value.
pub open spec fn be32(v: int) -> Seq<u8> {
    seq![(v / 16777216) as u8, ((v / 65536) % 256) as u8, ((v / 256) % 256) as u8, (v % 256) as u8]
}

/// Big-endian bytes of a 16-bit value.
pub open spec fn be16_of(v: u16) -> Seq<u8> {
    be16(v as int)
}

/// `s` from index `from` to its end.
pub open spec fn tail_from(s: Seq<u8>, from: int) -> Seq<u8> {
    s.subrange(from, s.len() as int)
}

/// `s` with the 16-bit value `v` written big-endian at `i`.
pub open spec fn with_be16_of(s: Seq<u8>, i: int, v: u16) -> Seq<u8> {
    with_be16(s, i, v as int)
}

/// The big-endian 16-bit value at `i`.
pub open spec fn be16_at(s: Seq<u8>, i: int) -> int {
    s[i] * 256 + s[i + 1]
}

/// The big-endian 32-bit value at `i`.
pub open spec fn be32_at(s: Seq<u8>, i: int) -> int {
    s[i] * 16777216 + s[i + 1] * 65536 + s[i + 2] * 256 + s[i + 3]
}

/// `s` with the big-endian 16-bit value `v` written at `i`.
pub open spec fn with_be16(s: Seq<u8>, i: int, v: int) -> Seq<u8> {
    s.update(i, (v / 256) as u8).update(i + 1, (v % 256) as u8)
}

/// Reading back a 16-bit value gives what was written.
pub proof fn lemma_be16_roundtrip(v: int)
    requires
        0 <= v < 65536,
    ensures
        be16_at(be16(v), 0) == v,
{
}

/// Reading back a 16-bit value gives what was written.
pub proof fn lemma_be16_of_roundtrip(v: u16)
    ensures
        be16_at(be16_of(v), 0) == v,
{
    lemma_be16_roundtrip(v as int);
}

/// Reading back a 32-bit value gives what was written.
pub proof fn lemma_be32_roundtrip(v: int)
    requires
        0 <= v < 4294967296,
    ensures
        be32_at(be32(v), 0) == v,
{
    let a = v / 16777216;
    let b = (v / 65536) % 256;
    let c = (v / 256) % 256;
    let d = v % 256;
    assert(v / 65536 == a * 256 + b);
    assert(v / 256 == (v / 65536) * 256 + c);
    assert(v == (v / 256) * 256 + d);
}

/// Appends the big-endian bytes of `x`.
pub fn push_be16(v: &mut Vec<u8>, x: u16)
    ensures
        final(v)@ == old(v)@ + be16(x as int),
{
    v.push((x / 256) as u8);
    v.push((x % 256) as u8);
    proof {
        assert(final(v)@ =~= old(v)@ + be16(x as int));
    }
}

/// Appends the big-endian bytes of `x`.
pub fn push_be32(v: &mut Vec<u8>, x: u32)
    ensures
        final(v)@ == old(v)@ + be32(x as int),
{
    v.push((x / 16777216) as u8);
    v.push(((x / 65536) % 256) as u8);
    v.push(((x / 256) % 256) as u8);
    v.push((x % 256) as u8);
    proof {
        assert(final(v)@ =~= old(v)@ + be32(x as int));
    }
}

/// Appends the octets of `a`.
pub fn push_ipv4(v: &mut Vec<u8>, a: Ipv4Addr)
    ensures
        final(v)@ == old(v)@ + a.octets(),
{
    v.push(a.0);
    v.push(a.1);
    v.push(a.2);
    v.push(a.3);
    proof {
        assert(final(v)@ =~= old(v)@ + a.octets());
    }
}

/// Appends the octets of `m`.
pub fn push_mac(v: &mut Vec<u8>, m: MacAddr)
    ensures
        final(v)@ == old(v)@ + m.octets(),
{
    v.push(m.0);
    v.push(m.1);
    v.push(m.2);
    v.push(m.3);
    v.push(m.4);
    v.push(m.5);
    proof {
        assert(final(v)@ =~= old(v)@ + m.octets());
    }
}

/// Appends every byte of `data`.
pub fn push_all(v: &mut Vec<u8>, data: &[u8])
    ensures
        final(v)@ == old(v)@ + data@,
{
    let ghost start = v@;
    let mut i: usize = 0;
    while i < data.len()
        invariant
            0 <= i <= data.len(),
            v@ == start + data@.subrange(0, i as int),
        decreases data.len() - i,
    {
        v.push(data[i]);
        i = i + 1;
        proof {
            assert(v@ =~= start + data@.subrange(0, i as int));
        }
    }
    proof {
        assert(data@.subrange(0, data.len() as int) =~= data@);
    }
}

/// Writes `x` big-endian at `i` and `i + 1`.
pub fn set_be16(v: &mut Vec<u8>, i: usize, x: u16)
    requires
        i + 1 < old(v)@.len(),
    ensures
        final(v)@ == with_be16(old(v)@, i as int, x as int),
{
    let n = v.len();
    assert(i + 1 < n);
    let j = i + 1;
    v.set(i, (x / 256) as u8);
    v.set(j, (x % 256) as u8);
}

/// The bytes `data[from..to]`.
pub fn copy_range(data: &[u8], from: usize, to: usize) -> (r: Vec<u8>)
    requires
        from <= to <= data@.len(),
    ensures
        r@ == data@.subrange(from as int, to as int),
{
    let mut r: Vec<u8> = Vec::new();
    let mut i = from;
    while i < to
        invariant
            from <= i <= to <= data@.len(),
            r@ == data@.subrange(from as int, i as int),
        decreases to - i,
    {
        r.push(data[i]);
        i = i + 1;
        proof {
            assert(r@ =~= data@.subrange(from as int, i as int));
        }
    }
    r
}

/// The big-endian 16-bit value at `i`.
pub fn read_be16(data: &[u8], i: usize) -> (r: u16)
    requires
        i + 1 < data@.len(),
    ensures
        r == be16_at(data@, i as int),
{
    data[i] as u16 * 256 + data[i + 1] as u16
}

/// The big-endian 32-bit value at `i`.
pub fn read_be32(data: &[u8], i: usize) -> (r: u32)
    requires
        i + 3 < data@.len(),
    ensures
        r == be32_at(data@, i as int),
{
    data[i] as u32 * 16777216 + data[i + 1] as u32 * 65536 + data[i + 2] as u32 * 256 + data[i + 3] as u32
}

} // verus!
