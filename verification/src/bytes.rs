//! Byte-level integer encoding and decoding.
//!
//! Mach-O load commands are written in the endianness fixed by the magic
//! of the slice; all signature blobs use big-endian fields. Both the
//! readers and the writers here are specified against sequence-level
//! spec functions so that contracts elsewhere can speak of exact bytes.

use vstd::prelude::*;

verus! {

/// The four bytes of `x` in little-endian order.
#[verifier::opaque]
pub open spec fn le32(x: u32) -> Seq<u8> {
    seq![
        (x % 0x100) as u8,
        ((x / 0x100) % 0x100) as u8,
        ((x / 0x10000) % 0x100) as u8,
        ((x / 0x1000000) % 0x100) as u8,
    ]
}

/// The four bytes of `x` in big-endian order.
#[verifier::opaque]
pub open spec fn be32(x: u32) -> Seq<u8> {
    seq![
        ((x / 0x1000000) % 0x100) as u8,
        ((x / 0x10000) % 0x100) as u8,
        ((x / 0x100) % 0x100) as u8,
        (x % 0x100) as u8,
    ]
}

/// The eight bytes of `x` in little-endian order.
#[verifier::opaque]
pub open spec fn le64(x: u64) -> Seq<u8> {
    seq![
        (x % 0x100) as u8,
        ((x / 0x100) % 0x100) as u8,
        ((x / 0x10000) % 0x100) as u8,
        ((x / 0x1000000) % 0x100) as u8,
        ((x / 0x100000000) % 0x100) as u8,
        ((x / 0x10000000000) % 0x100) as u8,
        ((x / 0x1000000000000) % 0x100) as u8,
        ((x / 0x100000000000000) % 0x100) as u8,
    ]
}

/// The eight bytes of `x` in big-endian order.
#[verifier::opaque]
pub open spec fn be64(x: u64) -> Seq<u8> {
    seq![
        ((x / 0x100000000000000) % 0x100) as u8,
        ((x / 0x1000000000000) % 0x100) as u8,
        ((x / 0x10000000000) % 0x100) as u8,
        ((x / 0x100000000) % 0x100) as u8,
        ((x / 0x1000000) % 0x100) as u8,
        ((x / 0x10000) % 0x100) as u8,
        ((x / 0x100) % 0x100) as u8,
        (x % 0x100) as u8,
    ]
}

/// Four bytes of `x` in the endianness chosen by `little`.
pub open spec fn u32_bytes(x: u32, little: bool) -> Seq<u8> {
    if little {
        le32(x)
    } else {
        be32(x)
    }
}

/// Eight bytes of `x` in the endianness chosen by `little`.
pub open spec fn u64_bytes(x: u64, little: bool) -> Seq<u8> {
    if little {
        le64(x)
    } else {
        be64(x)
    }
}

/// The value read from four little-endian bytes at `off`.
#[verifier::opaque]
pub open spec fn u32_le_at(s: Seq<u8>, off: int) -> u32 {
    (s[off] + s[off + 1] * 0x100 + s[off + 2] * 0x10000 + s[off + 3] * 0x1000000) as u32
}

/// The value read from four big-endian bytes at `off`.
#[verifier::opaque]
pub open spec fn u32_be_at(s: Seq<u8>, off: int) -> u32 {
    (s[off + 3] + s[off + 2] * 0x100 + s[off + 1] * 0x10000 + s[off] * 0x1000000) as u32
}

/// The value read from four bytes at `off` in the chosen endianness.
#[verifier::opaque]
pub open spec fn u32_at(s: Seq<u8>, off: int, little: bool) -> u32 {
    if little {
        u32_le_at(s, off)
    } else {
        u32_be_at(s, off)
    }
}

/// The value read from eight bytes at `off` in the chosen endianness.
#[verifier::opaque]
pub open spec fn u64_at(s: Seq<u8>, off: int, little: bool) -> u64 {
    if little {
        (u32_le_at(s, off) + u32_le_at(s, off + 4) * 0x100000000) as u64
    } else {
        (u32_be_at(s, off + 4) + u32_be_at(s, off) * 0x100000000) as u64
    }
}

/// The encoded width of a `u32` is four bytes.
pub proof fn lemma_u32_bytes_len(x: u32, little: bool)
    ensures
        u32_bytes(x, little).len() == 4,
{
    reveal(le32);
    reveal(be32);
}

/// The encoded width of a `u64` is eight bytes.
pub proof fn lemma_u64_bytes_len(x: u64, little: bool)
    ensures
        u64_bytes(x, little).len() == 8,
{
    reveal(le64);
    reveal(be64);
}

/// Append the four bytes of `x` to `out` in the chosen endianness.
pub fn push_u32(out: &mut Vec<u8>, x: u32, little: bool)
    ensures
        final(out)@ == old(out)@ + u32_bytes(x, little),
{
    proof {
        reveal(le32);
        reveal(be32);
    }
    let b0: u8 = (x % 0x100) as u8;
    let b1: u8 = ((x / 0x100) % 0x100) as u8;
    let b2: u8 = ((x / 0x10000) % 0x100) as u8;
    let b3: u8 = ((x / 0x1000000) % 0x100) as u8;
    if little {
        out.push(b0);
        out.push(b1);
        out.push(b2);
        out.push(b3);
        assert(out@ =~= old(out)@ + le32(x));
    } else {
        out.push(b3);
        out.push(b2);
        out.push(b1);
        out.push(b0);
        assert(out@ =~= old(out)@ + be32(x));
    }
}

/// Append the eight bytes of `x` to `out` in the chosen endianness.
pub fn push_u64(out: &mut Vec<u8>, x: u64, little: bool)
    ensures
        final(out)@ == old(out)@ + u64_bytes(x, little),
{
    proof {
        reveal(le64);
        reveal(be64);
    }
    let b0: u8 = (x % 0x100) as u8;
    let b1: u8 = ((x / 0x100) % 0x100) as u8;
    let b2: u8 = ((x / 0x10000) % 0x100) as u8;
    let b3: u8 = ((x / 0x1000000) % 0x100) as u8;
    let b4: u8 = ((x / 0x100000000) % 0x100) as u8;
    let b5: u8 = ((x / 0x10000000000) % 0x100) as u8;
    let b6: u8 = ((x / 0x1000000000000) % 0x100) as u8;
    let b7: u8 = ((x / 0x100000000000000) % 0x100) as u8;
    if little {
        out.push(b0);
        out.push(b1);
        out.push(b2);
        out.push(b3);
        out.push(b4);
        out.push(b5);
        out.push(b6);
        out.push(b7);
        assert(out@ =~= old(out)@ + le64(x));
    } else {
        out.push(b7);
        out.push(b6);
        out.push(b5);
        out.push(b4);
        out.push(b3);
        out.push(b2);
        out.push(b1);
        out.push(b0);
        assert(out@ =~= old(out)@ + be64(x));
    }
}

/// Read a `u32` at `off` in the chosen endianness.
pub fn read_u32(data: &[u8], off: usize, little: bool) -> (r: u32)
    requires
        off + 4 <= data@.len(),
    ensures
        r == u32_at(data@, off as int, little),
{
    proof {
        reveal(u32_at);
        reveal(u32_le_at);
        reveal(u32_be_at);
    }
    let b0 = data[off] as u32;
    let b1 = data[off + 1] as u32;
    let b2 = data[off + 2] as u32;
    let b3 = data[off + 3] as u32;
    if little {
        b0 + b1 * 0x100 + b2 * 0x10000 + b3 * 0x1000000
    } else {
        b3 + b2 * 0x100 + b1 * 0x10000 + b0 * 0x1000000
    }
}

/// Read a `u64` at `off` in the chosen endianness.
pub fn read_u64(data: &[u8], off: usize, little: bool) -> (r: u64)
    requires
        off + 8 <= data@.len(),
    ensures
        r == u64_at(data@, off as int, little),
{
    proof {
        reveal(u64_at);
        reveal(u32_at);
        reveal(u32_le_at);
        reveal(u32_be_at);
    }
    let n: usize = data.len();
    if little {
        let lo = read_u32(data, off, true) as u64;
        let hi = read_u32(data, off + 4, true) as u64;
        lo + hi * 0x100000000
    } else {
        let hi = read_u32(data, off, false) as u64;
        let lo = read_u32(data, off + 4, false) as u64;
        lo + hi * 0x100000000
    }
}

/// Overwrite the four bytes at `pos` with `x` in the chosen endianness.
pub fn overwrite_u32(out: &mut Vec<u8>, pos: usize, x: u32, little: bool)
    requires
        pos + 4 <= old(out)@.len(),
    ensures
        final(out)@.len() == old(out)@.len(),
        final(out)@.subrange(pos as int, pos + 4) == u32_bytes(x, little),
        forall|i: int|
            0 <= i < old(out)@.len() && !(pos <= i < pos + 4) ==> final(out)@[i] == old(out)@[i],
{
    proof {
        reveal(le32);
        reveal(be32);
    }
    let n: usize = out.len();
    let b0: u8 = (x % 0x100) as u8;
    let b1: u8 = ((x / 0x100) % 0x100) as u8;
    let b2: u8 = ((x / 0x10000) % 0x100) as u8;
    let b3: u8 = ((x / 0x1000000) % 0x100) as u8;
    if little {
        out.set(pos, b0);
        out.set(pos + 1, b1);
        out.set(pos + 2, b2);
        out.set(pos + 3, b3);
    } else {
        out.set(pos, b3);
        out.set(pos + 1, b2);
        out.set(pos + 2, b1);
        out.set(pos + 3, b0);
    }
    assert(out@.subrange(pos as int, pos + 4) =~= u32_bytes(x, little));
}

/// Overwrite the eight bytes at `pos` with `x` in the chosen endianness.
pub fn overwrite_u64(out: &mut Vec<u8>, pos: usize, x: u64, little: bool)
    requires
        pos + 8 <= old(out)@.len(),
    ensures
        final(out)@.len() == old(out)@.len(),
        final(out)@.subrange(pos as int, pos + 8) == u64_bytes(x, little),
        forall|i: int|
            0 <= i < old(out)@.len() && !(pos <= i < pos + 8) ==> final(out)@[i] == old(out)@[i],
{
    proof {
        reveal(le64);
        reveal(be64);
    }
    let n: usize = out.len();
    let b0: u8 = (x % 0x100) as u8;
    let b1: u8 = ((x / 0x100) % 0x100) as u8;
    let b2: u8 = ((x / 0x10000) % 0x100) as u8;
    let b3: u8 = ((x / 0x1000000) % 0x100) as u8;
    let b4: u8 = ((x / 0x100000000) % 0x100) as u8;
    let b5: u8 = ((x / 0x10000000000) % 0x100) as u8;
    let b6: u8 = ((x / 0x1000000000000) % 0x100) as u8;
    let b7: u8 = ((x / 0x100000000000000) % 0x100) as u8;
    if little {
        out.set(pos, b0);
        out.set(pos + 1, b1);
        out.set(pos + 2, b2);
        out.set(pos + 3, b3);
        out.set(pos + 4, b4);
        out.set(pos + 5, b5);
        out.set(pos + 6, b6);
        out.set(pos + 7, b7);
    } else {
        out.set(pos, b7);
        out.set(pos + 1, b6);
        out.set(pos + 2, b5);
        out.set(pos + 3, b4);
        out.set(pos + 4, b3);
        out.set(pos + 5, b2);
        out.set(pos + 6, b1);
        out.set(pos + 7, b0);
    }
    assert(out@.subrange(pos as int, pos + 8) =~= u64_bytes(x, little));
}

/// Append `count` zero bytes to `out`.
pub fn push_zeros(out: &mut Vec<u8>, count: usize)
    ensures
        final(out)@ == old(out)@ + Seq::new(count as nat, |i: int| 0u8),
{
    let mut i: usize = 0;
    while i < count
        invariant
            i <= count,
            out@ == old(out)@ + Seq::new(i as nat, |j: int| 0u8),
        decreases count - i,
    {
        out.push(0u8);
        assert(out@ =~= old(out)@ + Seq::new((i + 1) as nat, |j: int| 0u8));
        i = i + 1;
    }
}

/// Append `data[start..end]` to `out`.
pub fn push_slice_range(out: &mut Vec<u8>, data: &[u8], start: usize, end: usize)
    requires
        start <= end,
        end <= data@.len(),
    ensures
        final(out)@ == old(out)@ + data@.subrange(start as int, end as int),
{
    let mut i: usize = start;
    while i < end
        invariant
            start <= i <= end,
            end <= data@.len(),
            out@ == old(out)@ + data@.subrange(start as int, i as int),
        decreases end - i,
    {
        out.push(data[i]);
        assert(out@ =~= old(out)@ + data@.subrange(start as int, (i + 1) as int));
        i = i + 1;
    }
}

/// Append the whole of `data` to `out`.
pub fn push_bytes(out: &mut Vec<u8>, data: &[u8])
    ensures
        final(out)@ == old(out)@ + data@,
{
    push_slice_range(out, data, 0, data.len());
    assert(data@.subrange(0, data@.len() as int) =~= data@);
}

} // verus!

verus! {

/// Copy a byte vector.
pub fn clone_bytes(v: &Vec<u8>) -> (r: Vec<u8>)
    ensures
        r@ == v@,
{
    vstd::slice::slice_to_vec(v.as_slice())
}

} // verus!
