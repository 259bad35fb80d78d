//! Universal (fat) binaries: parsing the arch table and framing
//! signed slices back into one file.

use vstd::prelude::*;

use crate::bytes::{push_bytes, push_u32, push_zeros, read_u32, u32_at};
use crate::errors::SigningError;
use crate::round_up;

verus! {

pub const FAT_MAGIC: u32 = 0xcafebabe;

/// One fat arch table entry.
#[derive(Clone, Copy, Debug)]
pub struct FatArch {
    pub cputype: u32,
    pub cpusubtype: u32,
    pub offset: u32,
    pub size: u32,
    pub align: u32,
}

/// Structural validity of a fat arch entry against the bytes; entry
/// `i` sits at byte `8 + 20 i`.
pub open spec fn fat_arch_wf(a: FatArch, data: Seq<u8>, i: int) -> bool {
    let base = 8 + 20 * i;
    &&& a.cputype == u32_at(data, base, false)
    &&& a.cpusubtype == u32_at(data, base + 4, false)
    &&& a.offset == u32_at(data, base + 8, false)
    &&& a.size == u32_at(data, base + 12, false)
    &&& a.align == u32_at(data, base + 16, false)
    &&& a.offset + a.size <= data.len()
}

/// Whether the buffer begins with the fat magic.
pub open spec fn spec_is_fat(data: Seq<u8>) -> bool {
    data.len() >= 8 && u32_at(data, 0, false) == FAT_MAGIC
}

/// Check for the fat magic.
pub fn is_fat(data: &[u8]) -> (r: bool)
    ensures
        r == spec_is_fat(data@),
{
    if data.len() < 8 {
        return false;
    }
    read_u32(data, 0, false) == FAT_MAGIC
}

/// Parse the fat header and arch table.
///
/// Every returned entry's fields equal the big-endian values in the
/// table and its byte range lies inside the buffer.
pub fn parse_fat(data: &[u8]) -> (r: Result<Vec<FatArch>, SigningError>)
    ensures
        match r {
            Ok(v) => {
                &&& spec_is_fat(data@)
                &&& v@.len() == u32_at(data@, 4, false)
                &&& forall|i: int| 0 <= i < v@.len() ==> fat_arch_wf(#[trigger] v@[i], data@, i)
            },
            Err(e) => e is ParseError,
        },
{
    let n: usize = data.len();
    if n < 8 {
        return Err(SigningError::ParseError);
    }
    if read_u32(data, 0, false) != FAT_MAGIC {
        return Err(SigningError::ParseError);
    }
    let nfat = read_u32(data, 4, false);
    if nfat > 0xff {
        return Err(SigningError::ParseError);
    }
    let count = nfat as usize;
    if n < 8 + 20 * count {
        return Err(SigningError::ParseError);
    }
    let mut v: Vec<FatArch> = Vec::new();
    let mut i: usize = 0;
    while i < count
        invariant
            n == data@.len(),
            count <= 0xff,
            8 + 20 * count <= n,
            i <= count,
            v@.len() == i,
            forall|j: int| 0 <= j < i ==> fat_arch_wf(#[trigger] v@[j], data@, j),
        decreases count - i,
    {
        let base: usize = 8 + 20 * i;
        let a = FatArch {
            cputype: read_u32(data, base, false),
            cpusubtype: read_u32(data, base + 4, false),
            offset: read_u32(data, base + 8, false),
            size: read_u32(data, base + 12, false),
            align: read_u32(data, base + 16, false),
        };
        if a.size as u64 > n as u64 || a.offset as u64 > n as u64 - a.size as u64 {
            return Err(SigningError::ParseError);
        }
        v.push(a);
        i = i + 1;
    }
    Ok(v)
}

/// The file offset of slice `i`, with every slice aligned to 16 KiB.
pub open spec fn spec_fat_slice_offset(lens: Seq<int>, count: int, i: int) -> int
    decreases i,
{
    if i <= 0 {
        round_up(8 + 20 * count, 16384)
    } else {
        round_up(spec_fat_slice_offset(lens, count, i - 1) + lens[i - 1], 16384)
    }
}

/// Offsets grow with the slice index.
pub proof fn lemma_fat_offsets_monotone(lens: Seq<int>, count: int)
    requires
        count >= 0,
        forall|i: int| 0 <= i < lens.len() ==> #[trigger] lens[i] >= 0,
    ensures
        forall|a: int, b: int|
            0 <= a <= b <= lens.len() ==> #[trigger] spec_fat_slice_offset(lens, count, a)
                <= #[trigger] spec_fat_slice_offset(lens, count, b),
{
    assert forall|a: int, b: int|
        0 <= a <= b <= lens.len() implies #[trigger] spec_fat_slice_offset(lens, count, a)
        <= #[trigger] spec_fat_slice_offset(lens, count, b) by {
        lemma_fat_offsets_step(lens, count, a, b);
    }
}

/// Helper induction for offset monotonicity.
proof fn lemma_fat_offsets_step(lens: Seq<int>, count: int, a: int, b: int)
    requires
        0 <= a <= b <= lens.len(),
        count >= 0,
        forall|i: int| 0 <= i < lens.len() ==> #[trigger] lens[i] >= 0,
    ensures
        spec_fat_slice_offset(lens, count, a) <= spec_fat_slice_offset(lens, count, b),
        spec_fat_slice_offset(lens, count, a) >= 0,
    decreases b,
{
    if a == 0 {
        assert(spec_fat_slice_offset(lens, count, 0) >= 0);
    }
    if a > 0 {
        lemma_fat_offsets_step(lens, count, a - 1, a - 1);
        let prev = spec_fat_slice_offset(lens, count, a - 1) + lens[a - 1];
        assert(0 <= prev % 16384 < 16384);
    }
    if a < b {
        lemma_fat_offsets_step(lens, count, a, b - 1);
        lemma_fat_offsets_step(lens, count, b - 1, b - 1);
        let prev = spec_fat_slice_offset(lens, count, b - 1) + lens[b - 1];
        assert(0 <= prev % 16384 < 16384);
    }
}

/// Frame signed slices into a universal binary.
///
/// The header enumerates every slice with its CPU identity, 16
/// KiB-aligned offset and size; each slice's bytes appear verbatim at
/// its recorded offset.
#[verifier::rlimit(100)]
pub fn create_universal_macho(slices: &Vec<Vec<u8>>, archs: &Vec<(u32, u32)>) -> (r: Result<
    Vec<u8>,
    SigningError,
>)
    requires
        slices@.len() == archs@.len(),
        1 <= slices@.len() <= 0xff,
        forall|i: int| 0 <= i < slices@.len() ==> (#[trigger] slices@[i])@.len() <= 0x10000000,
    ensures
        match r {
            Ok(out) => {
                let lens = slices@.map_values(|s: Vec<u8>| s@.len() as int);
                let count = slices@.len() as int;
                &&& forall|i: int|
                    0 <= i < count ==> #[trigger] spec_fat_slice_offset(lens, count, i) % 16384
                        == 0
                &&& out@.len() == spec_fat_slice_offset(lens, count, count - 1)
                    + slices@[count - 1]@.len()
            },
            Err(e) => e is UnsupportedBinary,
        },
{
    let ghost lens = slices@.map_values(|s: Vec<u8>| s@.len() as int);
    let count = slices.len();

    // First pass: compute the aligned offsets in 64-bit space.
    let mut offs: Vec<u64> = Vec::new();
    let header_len: u64 = 8 + 20 * count as u64;
    let rem0: u64 = header_len % 16384;
    let first: u64 = if rem0 == 0 {
        header_len
    } else {
        header_len + 16384 - rem0
    };
    let mut i: usize = 0;
    let mut next: u64 = first;
    while i < count
        invariant
            count == slices@.len(),
            1 <= count <= 0xff,
            lens == slices@.map_values(|s: Vec<u8>| s@.len() as int),
            forall|j: int| 0 <= j < count ==> (#[trigger] slices@[j])@.len() <= 0x10000000,
            i <= count,
            offs@.len() == i,
            forall|j: int|
                0 <= j < i ==> #[trigger] offs@[j] == spec_fat_slice_offset(
                    lens,
                    count as int,
                    j,
                ),
            next == if i == 0 {
                spec_fat_slice_offset(lens, count as int, 0)
            } else {
                round_up(
                    spec_fat_slice_offset(lens, count as int, i - 1) + slices@[i - 1]@.len(),
                    16384,
                )
            },
            next <= 16384 + (8 + 20 * count) + i * (0x10000000 + 16384),
        decreases count - i,
    {
        proof {
            assert(i * (0x10000000 + 16384) <= 255 * (0x10000000 + 16384)) by (nonlinear_arith)
                requires
                    0 <= i <= 255,
            ;
        }
        offs.push(next);
        let end: u64 = next + slices[i].len() as u64;
        let rem: u64 = end % 16384;
        next = if rem == 0 {
            end
        } else {
            end + 16384 - rem
        };
        proof {
            assert((i + 1) * (0x10000000 + 16384) >= i * (0x10000000 + 16384) + (0x10000000
                + 16384)) by (nonlinear_arith);
        }
        i = i + 1;
    }
    // Every offset must fit the 32-bit fat header fields. Offsets grow
    // monotonically, so the last one bounds them all.
    if offs[count - 1] > 0xffffffff - 0x10000000 {
        return Err(SigningError::UnsupportedBinary);
    }
    proof {
        lemma_fat_offsets_monotone(lens, count as int);
        assert forall|j: int| 0 <= j < count implies #[trigger] spec_fat_slice_offset(
            lens,
            count as int,
            j,
        ) % 16384 == 0 by {
            assert(offs@[j] == spec_fat_slice_offset(lens, count as int, j));
        }
        assert forall|j: int| 0 <= j < count - 1 implies #[trigger] offs@[j] + slices@[j]@.len()
            <= offs@[j + 1] by {
            assert(offs@[j + 1] == spec_fat_slice_offset(lens, count as int, j + 1));
            assert(offs@[j] == spec_fat_slice_offset(lens, count as int, j));
            assert(slices@[j]@.len() == lens[j]);
        }
        assert forall|j: int| 0 <= j < count implies #[trigger] offs@[j] <= 0xffffffff
            - 0x10000000 by {
            assert(offs@[j] == spec_fat_slice_offset(lens, count as int, j));
            assert(offs@[count - 1] == spec_fat_slice_offset(lens, count as int, count - 1));
        }
        assert(8 + 20 * count <= offs@[0]) by {
            assert(offs@[0] == spec_fat_slice_offset(lens, count as int, 0));
        }
    }

    // Second pass: header, arch table, padded slices.
    let mut out: Vec<u8> = Vec::new();
    push_u32(&mut out, FAT_MAGIC, false);
    push_u32(&mut out, count as u32, false);
    proof {
        crate::bytes::lemma_u32_bytes_len(FAT_MAGIC, false);
        crate::bytes::lemma_u32_bytes_len(count as u32, false);
    }
    let mut i: usize = 0;
    while i < count
        invariant
            count == slices@.len(),
            count == archs@.len(),
            count <= 0xff,
            offs@.len() == count,
            forall|j: int|
                0 <= j < count ==> #[trigger] offs@[j] == spec_fat_slice_offset(
                    lens,
                    count as int,
                    j,
                ),
            forall|j: int| 0 <= j < count ==> (#[trigger] slices@[j])@.len() <= 0x10000000,
            forall|j: int| 0 <= j < count ==> #[trigger] offs@[j] <= 0xffffffff - 0x10000000,
            i <= count,
            out@.len() == 8 + 20 * i,
        decreases count - i,
    {
        push_u32(&mut out, archs[i].0, false);
        push_u32(&mut out, archs[i].1, false);
        push_u32(&mut out, offs[i] as u32, false);
        push_u32(&mut out, slices[i].len() as u32, false);
        push_u32(&mut out, 14, false);
        proof {
            crate::bytes::lemma_u32_bytes_len(archs@[i as int].0, false);
            crate::bytes::lemma_u32_bytes_len(archs@[i as int].1, false);
            crate::bytes::lemma_u32_bytes_len(offs@[i as int] as u32, false);
            crate::bytes::lemma_u32_bytes_len(slices@[i as int]@.len() as u32, false);
            crate::bytes::lemma_u32_bytes_len(14, false);
        }
        i = i + 1;
    }
    let mut i: usize = 0;
    while i < count
        invariant
            count == slices@.len(),
            count <= 0xff,
            offs@.len() == count,
            lens == slices@.map_values(|s: Vec<u8>| s@.len() as int),
            forall|j: int|
                0 <= j < count ==> #[trigger] offs@[j] == spec_fat_slice_offset(
                    lens,
                    count as int,
                    j,
                ),
            forall|j: int| 0 <= j < count ==> (#[trigger] slices@[j])@.len() <= 0x10000000,
            forall|j: int|
                0 <= j < count - 1 ==> #[trigger] offs@[j] + slices@[j]@.len() <= offs@[j + 1],
            8 + 20 * count <= offs@[0],
            forall|j: int| 0 <= j < count ==> #[trigger] offs@[j] <= 0xffffffff - 0x10000000,
            i <= count,
            out@.len() == if i == 0 {
                (8 + 20 * count) as int
            } else {
                offs@[i - 1] + slices@[i - 1]@.len()
            },
        decreases count - i,
    {
        let cur: usize = out.len();
        proof {
            if i > 0 {
                assert(offs@[i - 1] + slices@[i - 1]@.len() <= offs@[i as int]);
            }
            assert(out@.len() <= offs@[i as int]);
        }
        let target: usize = offs[i] as usize;
        push_zeros(&mut out, target - cur);
        push_bytes(&mut out, &slices[i]);
        i = i + 1;
    }
    Ok(out)
}

} // verus!
