//! The byte buffer the codec reads from and writes to: bytes are appended
//! at the back and consumed from the front, as a streaming transport
//! delivers and a decoder drains them.

use vstd::prelude::*;

verus! {

/// The two bytes of `v` in big-endian order.
pub open spec fn u16_be(v: u16) -> Seq<u8> {
    seq![(v >> 8) as u8, v as u8]
}

/// The four bytes of `v` in big-endian order.
pub open spec fn u32_be(v: u32) -> Seq<u8> {
    seq![(v >> 24) as u8, (v >> 16) as u8, (v >> 8) as u8, v as u8]
}

/// The eight bytes of `v` in big-endian order.
pub open spec fn u64_be(v: u64) -> Seq<u8> {
    seq![
        (v >> 56) as u8,
        (v >> 48) as u8,
        (v >> 40) as u8,
        (v >> 32) as u8,
        (v >> 24) as u8,
        (v >> 16) as u8,
        (v >> 8) as u8,
        v as u8,
    ]
}

/// Two values with the same big-endian bytes are the same value.
pub proof fn lemma_u16_be_injective(a: u16, b: u16)
    requires
        u16_be(a) == u16_be(b),
    ensures
        a == b,
{
    assert(u16_be(a)[0] == u16_be(b)[0]);
    assert(u16_be(a)[1] == u16_be(b)[1]);
    assert(a == b) by (bit_vector)
        requires
            (a >> 8) as u8 == (b >> 8) as u8 && a as u8 == b as u8,
    ;
}

/// Two values with the same big-endian bytes are the same value.
pub proof fn lemma_u32_be_injective(a: u32, b: u32)
    requires
        u32_be(a) == u32_be(b),
    ensures
        a == b,
{
    assert(u32_be(a)[0] == u32_be(b)[0]);
    assert(u32_be(a)[1] == u32_be(b)[1]);
    assert(u32_be(a)[2] == u32_be(b)[2]);
    assert(u32_be(a)[3] == u32_be(b)[3]);
    assert(a == b) by (bit_vector)
        requires
            (a >> 24) as u8 == (b >> 24) as u8 && (a >> 16) as u8 == (b >> 16) as u8 && (a
                >> 8) as u8 == (b >> 8) as u8 && a as u8 == b as u8,
    ;
}

/// Two values with the same big-endian bytes are the same value.
pub proof fn lemma_u64_be_injective(a: u64, b: u64)
    requires
        u64_be(a) == u64_be(b),
    ensures
        a == b,
{
    assert(u64_be(a)[0] == u64_be(b)[0]);
    assert(u64_be(a)[1] == u64_be(b)[1]);
    assert(u64_be(a)[2] == u64_be(b)[2]);
    assert(u64_be(a)[3] == u64_be(b)[3]);
    assert(u64_be(a)[4] == u64_be(b)[4]);
    assert(u64_be(a)[5] == u64_be(b)[5]);
    assert(u64_be(a)[6] == u64_be(b)[6]);
    assert(u64_be(a)[7] == u64_be(b)[7]);
    assert(a == b) by (bit_vector)
        requires
            (a >> 56) as u8 == (b >> 56) as u8 && (a >> 48) as u8 == (b >> 48) as u8 && (a
                >> 40) as u8 == (b >> 40) as u8 && (a >> 32) as u8 == (b >> 32) as u8 && (a
                >> 24) as u8 == (b >> 24) as u8 && (a >> 16) as u8 == (b >> 16) as u8 && (a
                >> 8) as u8 == (b >> 8) as u8 && a as u8 == b as u8,
    ;
}

/// A growable byte queue: written at the back, read at the front.
pub struct BytesMut {
    d: Vec<u8>,
}

/// The bytes a buffer holds, front first.
pub closed spec fn contents(b: BytesMut) -> Seq<u8> {
    b.d@
}

/// A fresh buffer holding no bytes.
pub fn buf_new() -> (r: BytesMut)
    ensures
        contents(r) == Seq::<u8>::empty(),
{
    BytesMut { d: Vec::new() }
}

/// The number of bytes held.
pub fn buf_len(b: &BytesMut) -> (r: usize)
    ensures
        r == contents(*b).len(),
{
    b.d.len()
}

/// A copy holding the same bytes.
pub fn clone_buf(b: &BytesMut) -> (r: BytesMut)
    ensures
        contents(r) == contents(*b),
{
    let mut d: Vec<u8> = Vec::new();
    let mut i: usize = 0;
    while i < b.d.len()
        invariant
            0 <= i <= b.d.len(),
            d@ == b.d@.take(i as int),
        decreases b.d.len() - i,
    {
        d.push(b.d[i]);
        i = i + 1;
        proof {
            assert(d@ =~= b.d@.take(i as int));
        }
    }
    proof {
        assert(b.d@.take(b.d@.len() as int) =~= b.d@);
    }
    BytesMut { d }
}

/// Appends the byte.
pub fn put_u8(b: &mut BytesMut, v: u8)
    ensures
        contents(*final(b)) == contents(*old(b)).push(v),
{
    b.d.push(v)
}

/// Appends the value's bytes, big-endian.
pub fn put_u16(b: &mut BytesMut, v: u16)
    ensures
        contents(*final(b)) == contents(*old(b)) + u16_be(v),
{
    b.d.push((v >> 8) as u8);
    b.d.push(v as u8);
    proof {
        assert(b.d@ =~= old(b).d@ + u16_be(v));
    }
}

/// Appends the value's bytes, big-endian.
pub fn put_u32(b: &mut BytesMut, v: u32)
    ensures
        contents(*final(b)) == contents(*old(b)) + u32_be(v),
{
    b.d.push((v >> 24) as u8);
    b.d.push((v >> 16) as u8);
    b.d.push((v >> 8) as u8);
    b.d.push(v as u8);
    proof {
        assert(b.d@ =~= old(b).d@ + u32_be(v));
    }
}

/// Appends the value's bytes, big-endian.
pub fn put_u64(b: &mut BytesMut, v: u64)
    ensures
        contents(*final(b)) == contents(*old(b)) + u64_be(v),
{
    b.d.push((v >> 56) as u8);
    b.d.push((v >> 48) as u8);
    b.d.push((v >> 40) as u8);
    b.d.push((v >> 32) as u8);
    b.d.push((v >> 24) as u8);
    b.d.push((v >> 16) as u8);
    b.d.push((v >> 8) as u8);
    b.d.push(v as u8);
    proof {
        assert(b.d@ =~= old(b).d@ + u64_be(v));
    }
}

/// Appends the slice's bytes.
pub fn put_slice(b: &mut BytesMut, s: &[u8])
    ensures
        contents(*final(b)) == contents(*old(b)) + s@,
{
    let mut i: usize = 0;
    while i < s.len()
        invariant
            0 <= i <= s@.len(),
            b.d@ == old(b).d@ + s@.take(i as int),
        decreases s@.len() - i,
    {
        let c = s[i];
        b.d.push(c);
        i = i + 1;
        proof {
            assert(b.d@ =~= old(b).d@ + s@.take(i as int));
        }
    }
    proof {
        assert(s@.take(s@.len() as int) =~= s@);
    }
}

/// Appends every byte of the other buffer.
pub fn put_buf(b: &mut BytesMut, other: BytesMut)
    ensures
        contents(*final(b)) == contents(*old(b)) + contents(other),
{
    put_slice(b, other.d.as_slice())
}

/// Removes and returns the first byte.  An empty buffer has none to give,
/// so one is ruled out here.
pub fn get_u8(b: &mut BytesMut) -> (r: u8)
    requires
        contents(*old(b)).len() >= 1,
    ensures
        r == contents(*old(b))[0],
        contents(*final(b)) == contents(*old(b)).skip(1),
{
    let r = b.d.remove(0);
    proof {
        assert(b.d@ =~= old(b).d@.skip(1));
    }
    r
}

/// Removes the first two bytes and returns them as a big-endian integer.
pub fn get_u16(b: &mut BytesMut) -> (r: u16)
    requires
        contents(*old(b)).len() >= 2,
    ensures
        u16_be(r) == contents(*old(b)).take(2),
        contents(*final(b)) == contents(*old(b)).skip(2),
{
    let b0 = get_u8(b);
    let b1 = get_u8(b);
    let r: u16 = ((b0 as u16) << 8) | (b1 as u16);
    proof {
        assert((r >> 8) as u8 == b0 && r as u8 == b1) by (bit_vector)
            requires
                r == ((b0 as u16) << 8) | (b1 as u16),
        ;
        assert(u16_be(r) =~= contents(*old(b)).take(2));
        assert(contents(*b) =~= contents(*old(b)).skip(2));
    }
    r
}

/// Removes the first four bytes and returns them as a big-endian integer.
pub fn get_u32(b: &mut BytesMut) -> (r: u32)
    requires
        contents(*old(b)).len() >= 4,
    ensures
        u32_be(r) == contents(*old(b)).take(4),
        contents(*final(b)) == contents(*old(b)).skip(4),
{
    let b0 = get_u8(b);
    let b1 = get_u8(b);
    let b2 = get_u8(b);
    let b3 = get_u8(b);
    let r: u32 = ((b0 as u32) << 24) | ((b1 as u32) << 16) | ((b2 as u32) << 8) | (b3 as u32);
    proof {
        assert((r >> 24) as u8 == b0 && (r >> 16) as u8 == b1 && (r >> 8) as u8 == b2 && r as u8
            == b3) by (bit_vector)
            requires
                r == ((b0 as u32) << 24) | ((b1 as u32) << 16) | ((b2 as u32) << 8) | (
                b3 as u32),
        ;
        assert(u32_be(r) =~= contents(*old(b)).take(4));
        assert(contents(*b) =~= contents(*old(b)).skip(4));
    }
    r
}

/// Removes the first eight bytes and returns them as a big-endian integer.
pub fn get_u64(b: &mut BytesMut) -> (r: u64)
    requires
        contents(*old(b)).len() >= 8,
    ensures
        u64_be(r) == contents(*old(b)).take(8),
        contents(*final(b)) == contents(*old(b)).skip(8),
{
    let b0 = get_u8(b);
    let b1 = get_u8(b);
    let b2 = get_u8(b);
    let b3 = get_u8(b);
    let b4 = get_u8(b);
    let b5 = get_u8(b);
    let b6 = get_u8(b);
    let b7 = get_u8(b);
    let r: u64 = ((b0 as u64) << 56) | ((b1 as u64) << 48) | ((b2 as u64) << 40) | ((b3 as u64)
        << 32) | ((b4 as u64) << 24) | ((b5 as u64) << 16) | ((b6 as u64) << 8) | (b7 as u64);
    proof {
        assert((r >> 56) as u8 == b0 && (r >> 48) as u8 == b1 && (r >> 40) as u8 == b2 && (r
            >> 32) as u8 == b3 && (r >> 24) as u8 == b4 && (r >> 16) as u8 == b5 && (r >> 8) as u8
            == b6 && r as u8 == b7) by (bit_vector)
            requires
                r == ((b0 as u64) << 56) | ((b1 as u64) << 48) | ((b2 as u64) << 40) | ((
                b3 as u64) << 32) | ((b4 as u64) << 24) | ((b5 as u64) << 16) | ((b6 as u64)
                    << 8) | (b7 as u64),
        ;
        assert(u64_be(r) =~= contents(*old(b)).take(8));
        assert(contents(*b) =~= contents(*old(b)).skip(8));
    }
    r
}

/// Discards the first `n` bytes.
pub fn advance(b: &mut BytesMut, n: usize)
    requires
        n <= contents(*old(b)).len(),
    ensures
        contents(*final(b)) == contents(*old(b)).skip(n as int),
{
    let mut i: usize = 0;
    while i < n
        invariant
            0 <= i <= n,
            n <= old(b).d@.len(),
            b.d@ == old(b).d@.skip(i as int),
        decreases n - i,
    {
        b.d.remove(0);
        i = i + 1;
        proof {
            assert(b.d@ =~= old(b).d@.skip(i as int));
        }
    }
}

/// The held bytes, front first, as a vector.
pub fn buf_to_vec(b: &BytesMut) -> (r: Vec<u8>)
    ensures
        r@ == contents(*b),
{
    let mut d: Vec<u8> = Vec::new();
    let mut i: usize = 0;
    while i < b.d.len()
        invariant
            0 <= i <= b.d.len(),
            d@ == b.d@.take(i as int),
        decreases b.d.len() - i,
    {
        d.push(b.d[i]);
        i = i + 1;
        proof {
            assert(d@ =~= b.d@.take(i as int));
        }
    }
    proof {
        assert(b.d@.take(b.d@.len() as int) =~= b.d@);
    }
    d
}

/// A buffer holding exactly the vector's bytes.
pub fn buf_from_vec(d: Vec<u8>) -> (r: BytesMut)
    ensures
        contents(r) == d@,
{
    BytesMut { d }
}

/// Removes the first `n` bytes and returns them as a buffer of their own.
pub fn split_to(b: &mut BytesMut, n: usize) -> (r: BytesMut)
    requires
        n <= contents(*old(b)).len(),
    ensures
        contents(r) == contents(*old(b)).take(n as int),
        contents(*final(b)) == contents(*old(b)).skip(n as int),
{
    let mut d: Vec<u8> = Vec::new();
    let mut i: usize = 0;
    while i < n
        invariant
            0 <= i <= n,
            n <= b.d@.len(),
            d@ == b.d@.take(i as int),
        decreases n - i,
    {
        d.push(b.d[i]);
        i = i + 1;
        proof {
            assert(d@ =~= b.d@.take(i as int));
        }
    }
    advance(b, n);
    BytesMut { d }
}

} // verus!
