//! Digest engine: hash algorithm selection, page digests, slice digests.
//!
//! The hash functions themselves come from the `sha1` and `sha2` crates;
//! each is given a name at the specification level and everything built
//! on top (page coverage, digest sizes) is verified against those names.

use vstd::prelude::*;
use vstd::slice::slice_subrange;

verus! {

/// A digest algorithm usable inside a Code Directory.
#[derive(Clone, Copy, Debug, PartialEq, Eq, Structural)]
pub enum DigestKind {
    Sha1,
    Sha256,
    Sha384,
    Sha512,
}

/// The SHA-1 digest of `data`, as the `sha1` crate computes it.
pub uninterp spec fn sha1_digest_of(data: Seq<u8>) -> Seq<u8>;

/// The SHA-256 digest of `data`, as the `sha2` crate computes it.
pub uninterp spec fn sha256_digest_of(data: Seq<u8>) -> Seq<u8>;

/// The SHA-384 digest of `data`, as the `sha2` crate computes it.
pub uninterp spec fn sha384_digest_of(data: Seq<u8>) -> Seq<u8>;

/// The SHA-512 digest of `data`, as the `sha2` crate computes it.
pub uninterp spec fn sha512_digest_of(data: Seq<u8>) -> Seq<u8>;

/// The digest of `data` under the chosen algorithm.
pub open spec fn digest_of(kind: DigestKind, data: Seq<u8>) -> Seq<u8> {
    match kind {
        DigestKind::Sha1 => sha1_digest_of(data),
        DigestKind::Sha256 => sha256_digest_of(data),
        DigestKind::Sha384 => sha384_digest_of(data),
        DigestKind::Sha512 => sha512_digest_of(data),
    }
}

/// The fixed output length of each algorithm, in bytes.
pub open spec fn spec_hash_len(kind: DigestKind) -> int {
    match kind {
        DigestKind::Sha1 => 20,
        DigestKind::Sha256 => 32,
        DigestKind::Sha384 => 48,
        DigestKind::Sha512 => 64,
    }
}

/// The hash-type tag stored in a Code Directory for each algorithm.
pub open spec fn spec_hash_type(kind: DigestKind) -> u8 {
    match kind {
        DigestKind::Sha1 => 1,
        DigestKind::Sha256 => 2,
        DigestKind::Sha384 => 4,
        DigestKind::Sha512 => 5,
    }
}

/// Relies on `sha1::Sha1::digest`: a 20-byte digest depending on the
/// input bytes alone.
#[verifier::external_body]
fn sha1_digest(data: &[u8]) -> (r: Vec<u8>)
    ensures
        r@ == sha1_digest_of(data@),
        r@.len() == 20,
{
    <sha1::Sha1 as sha1::Digest>::digest(data).to_vec()
}

/// Relies on `sha2::Sha256::digest`: a 32-byte digest depending on the
/// input bytes alone.
#[verifier::external_body]
fn sha256_digest(data: &[u8]) -> (r: Vec<u8>)
    ensures
        r@ == sha256_digest_of(data@),
        r@.len() == 32,
{
    <sha2::Sha256 as sha2::Digest>::digest(data).to_vec()
}

/// Relies on `sha2::Sha384::digest`: a 48-byte digest depending on the
/// input bytes alone.
#[verifier::external_body]
fn sha384_digest(data: &[u8]) -> (r: Vec<u8>)
    ensures
        r@ == sha384_digest_of(data@),
        r@.len() == 48,
{
    <sha2::Sha384 as sha2::Digest>::digest(data).to_vec()
}

/// Relies on `sha2::Sha512::digest`: a 64-byte digest depending on the
/// input bytes alone.
#[verifier::external_body]
fn sha512_digest(data: &[u8]) -> (r: Vec<u8>)
    ensures
        r@ == sha512_digest_of(data@),
        r@.len() == 64,
{
    <sha2::Sha512 as sha2::Digest>::digest(data).to_vec()
}

impl DigestKind {
    /// Output length in bytes.
    pub fn hash_len(&self) -> (r: usize)
        ensures
            r == spec_hash_len(*self),
    {
        match self {
            DigestKind::Sha1 => 20,
            DigestKind::Sha256 => 32,
            DigestKind::Sha384 => 48,
            DigestKind::Sha512 => 64,
        }
    }

    /// Hash-type tag for the Code Directory header.
    pub fn hash_type(&self) -> (r: u8)
        ensures
            r == spec_hash_type(*self),
    {
        match self {
            DigestKind::Sha1 => 1,
            DigestKind::Sha256 => 2,
            DigestKind::Sha384 => 4,
            DigestKind::Sha512 => 5,
        }
    }

    /// Digest an arbitrary byte slice.
    pub fn digest_data(&self, data: &[u8]) -> (r: Vec<u8>)
        ensures
            r@ == digest_of(*self, data@),
            r@.len() == spec_hash_len(*self),
    {
        match self {
            DigestKind::Sha1 => sha1_digest(data),
            DigestKind::Sha256 => sha256_digest(data),
            DigestKind::Sha384 => sha384_digest(data),
            DigestKind::Sha512 => sha512_digest(data),
        }
    }
}

/// How many page digests cover `limit` bytes at the given page size.
pub open spec fn spec_page_count(limit: int, page: int) -> int {
    (limit + page - 1) / page
}

/// The bytes of the `i`-th code page: a full page except for the final
/// remainder page, which is not padded.
pub open spec fn spec_page_chunk(data: Seq<u8>, limit: int, page: int, i: int) -> Seq<u8> {
    data.subrange(i * page, if (i + 1) * page <= limit { (i + 1) * page } else { limit })
}

/// Digest every page of `data[0..limit]`.
///
/// The `i`-th element is the digest of the `i`-th `page`-sized chunk;
/// the final chunk is the remainder.
pub fn compute_code_digests(data: &[u8], limit: usize, kind: DigestKind, page: usize) -> (r: Vec<
    Vec<u8>,
>)
    requires
        limit <= data@.len(),
        0 < page,
    ensures
        r@.len() == spec_page_count(limit as int, page as int),
        forall|i: int|
            0 <= i < r@.len() ==> #[trigger] r@[i]@ == digest_of(
                kind,
                spec_page_chunk(data@, limit as int, page as int, i),
            ),
        forall|i: int| 0 <= i < r@.len() ==> #[trigger] r@[i]@.len() == spec_hash_len(kind),
{
    let mut r: Vec<Vec<u8>> = Vec::new();
    let mut off: usize = 0;
    let mut i: usize = 0;
    while off < limit
        invariant
            limit <= data@.len(),
            0 < page,
            i <= limit,
            off == if i * page <= limit {
                (i * page) as int
            } else {
                limit as int
            },
            i == 0 || (i as int - 1) * page < limit,
            r@.len() == i,
            forall|j: int|
                0 <= j < i ==> #[trigger] r@[j]@ == digest_of(
                    kind,
                    spec_page_chunk(data@, limit as int, page as int, j),
                ),
            forall|j: int| 0 <= j < i ==> #[trigger] r@[j]@.len() == spec_hash_len(kind),
        decreases limit - off,
    {
        proof {
            if i * page > limit {
                assert(off == limit);
            }
            assert(off == i * page);
            assert((i + 1) * page == i * page + page) by (nonlinear_arith);
            assert(i <= i * page) by (nonlinear_arith)
                requires
                    1 <= page,
                    0 <= i,
            ;
        }
        let end: usize = if limit - off < page {
            limit
        } else {
            off + page
        };
        let chunk = slice_subrange(data, off, end);
        let d = kind.digest_data(chunk);
        assert(chunk@ == spec_page_chunk(data@, limit as int, page as int, i as int));
        r.push(d);
        off = end;
        i = i + 1;
    }
    proof {
        if limit == 0 {
            if i > 0 {
                assert((i as int - 1) * page >= 0) by (nonlinear_arith)
                    requires
                        1 <= i,
                        0 < page,
                ;
            }
            assert(i == 0);
            assert((page as int - 1) / (page as int) == 0) by (nonlinear_arith)
                requires
                    0 < page,
            ;
            assert(spec_page_count(limit as int, page as int) == 0);
        } else {
            assert(off == limit);
            if i * page <= limit {
                assert(i * page == limit);
                assert(i == spec_page_count(limit as int, page as int)) by (nonlinear_arith)
                    requires
                        0 < page,
                        0 < limit,
                        i * page == limit,
                ;
            } else {
                assert(i >= 1);
                assert(i == spec_page_count(limit as int, page as int)) by (nonlinear_arith)
                    requires
                        0 < page,
                        0 < limit,
                        i * page > limit,
                        (i as int - 1) * page < limit,
                ;
            }
        }
    }
    r
}

/// The byte size of the page-digest table for `limit` bytes of code.
pub open spec fn spec_code_digests_size(kind: DigestKind, limit: int, page: int) -> int {
    spec_page_count(limit, page) * spec_hash_len(kind)
}

} // verus!
