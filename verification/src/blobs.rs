//! Blob catalog: the SuperBlob members and their serialization.
//!
//! Every member serializes as a magic tag, a big-endian total length
//! including the 8-byte header, and a payload. The Code Directory is
//! the elaborate one; its byte layout is stated in full by
//! [`spec_cd_bytes`].

use vstd::prelude::*;

use crate::bytes::{be32, be64, push_bytes, push_u32, push_u64};
use crate::digest::{spec_hash_len, spec_hash_type, DigestKind};

verus! {

pub const CSMAGIC_REQUIREMENT: u32 = 0xfade0c00;

pub const CSMAGIC_REQUIREMENT_SET: u32 = 0xfade0c01;

pub const CSMAGIC_CODEDIRECTORY: u32 = 0xfade0c02;

pub const CSMAGIC_EMBEDDED_SIGNATURE: u32 = 0xfade0cc0;

pub const CSMAGIC_EMBEDDED_ENTITLEMENTS: u32 = 0xfade7171;

pub const CSMAGIC_EMBEDDED_ENTITLEMENTS_DER: u32 = 0xfade7172;

pub const CSMAGIC_EMBEDDED_LAUNCH_CONSTRAINT: u32 = 0xfade8181;

pub const CSMAGIC_BLOBWRAPPER: u32 = 0xfade0b01;

pub const CSSLOT_CODEDIRECTORY: u32 = 0;

pub const CSSLOT_INFO: u32 = 1;

pub const CSSLOT_REQUIREMENTS: u32 = 2;

pub const CSSLOT_RESOURCEDIR: u32 = 3;

pub const CSSLOT_APPLICATION: u32 = 4;

pub const CSSLOT_ENTITLEMENTS: u32 = 5;

pub const CSSLOT_ENTITLEMENTS_DER: u32 = 7;

pub const CSSLOT_LAUNCH_CONSTRAINT_SELF: u32 = 8;

pub const CSSLOT_LAUNCH_CONSTRAINT_PARENT: u32 = 9;

pub const CSSLOT_LAUNCH_CONSTRAINT_RESPONSIBLE: u32 = 10;

pub const CSSLOT_LIBRARY_CONSTRAINT: u32 = 11;

pub const CSSLOT_ALTERNATE_BASE: u32 = 0x1000;

pub const CSSLOT_SIGNATURE: u32 = 0x10000;

pub const REQUIREMENT_TYPE_DESIGNATED: u32 = 3;

/// A well-known position inside the SuperBlob.
#[derive(Clone, Copy, Debug, PartialEq, Eq, Structural)]
pub enum CodeSigningSlot {
    CodeDirectory,
    Info,
    RequirementSet,
    ResourceDir,
    Application,
    Entitlements,
    EntitlementsDer,
    LaunchConstraintsSelf,
    LaunchConstraintsParent,
    LaunchConstraintsResponsible,
    LibraryConstraints,
    AlternateCodeDirectory(u32),
    Signature,
}

/// The numeric slot index used in SuperBlob and Code Directory tables.
pub open spec fn spec_slot_id(slot: CodeSigningSlot) -> int {
    match slot {
        CodeSigningSlot::CodeDirectory => 0,
        CodeSigningSlot::Info => 1,
        CodeSigningSlot::RequirementSet => 2,
        CodeSigningSlot::ResourceDir => 3,
        CodeSigningSlot::Application => 4,
        CodeSigningSlot::Entitlements => 5,
        CodeSigningSlot::EntitlementsDer => 7,
        CodeSigningSlot::LaunchConstraintsSelf => 8,
        CodeSigningSlot::LaunchConstraintsParent => 9,
        CodeSigningSlot::LaunchConstraintsResponsible => 10,
        CodeSigningSlot::LibraryConstraints => 11,
        CodeSigningSlot::AlternateCodeDirectory(i) => 0x1000 + i,
        CodeSigningSlot::Signature => 0x10000,
    }
}

impl CodeSigningSlot {
    /// The numeric slot index.
    pub fn slot_id(&self) -> (r: u32)
        requires
            spec_slot_id(*self) <= 0xffffffff,
        ensures
            r == spec_slot_id(*self),
    {
        match self {
            CodeSigningSlot::CodeDirectory => 0,
            CodeSigningSlot::Info => 1,
            CodeSigningSlot::RequirementSet => 2,
            CodeSigningSlot::ResourceDir => 3,
            CodeSigningSlot::Application => 4,
            CodeSigningSlot::Entitlements => 5,
            CodeSigningSlot::EntitlementsDer => 7,
            CodeSigningSlot::LaunchConstraintsSelf => 8,
            CodeSigningSlot::LaunchConstraintsParent => 9,
            CodeSigningSlot::LaunchConstraintsResponsible => 10,
            CodeSigningSlot::LibraryConstraints => 11,
            CodeSigningSlot::AlternateCodeDirectory(i) => 0x1000 + *i,
            CodeSigningSlot::Signature => 0x10000,
        }
    }
}

/// One SuperBlob member before serialization: its magic tag and its
/// payload.
#[derive(Clone, Debug)]
pub struct BlobData {
    pub magic: u32,
    pub payload: Vec<u8>,
}

/// The serialized form of a blob: magic, length including the header,
/// payload.
pub open spec fn spec_blob_bytes(magic: u32, payload: Seq<u8>) -> Seq<u8> {
    be32(magic) + be32((payload.len() + 8) as u32) + payload
}

/// The serialized length of a blob.
pub open spec fn spec_blob_len(payload_len: int) -> int {
    payload_len + 8
}

impl BlobData {
    /// Serialize as magic, big-endian length including the header, and
    /// payload.
    pub fn to_blob_bytes(&self) -> (r: Vec<u8>)
        requires
            self.payload@.len() + 8 <= 0xffffffff,
        ensures
            r@ == spec_blob_bytes(self.magic, self.payload@),
            r@.len() == self.payload@.len() + 8,
    {
        let mut out: Vec<u8> = Vec::new();
        push_u32(&mut out, self.magic, false);
        push_u32(&mut out, (self.payload.len() + 8) as u32, false);
        push_bytes(&mut out, &self.payload);
        proof {
            crate::bytes::lemma_u32_bytes_len(self.magic, false);
            crate::bytes::lemma_u32_bytes_len((self.payload@.len() + 8) as u32, false);
            assert(out@ =~= spec_blob_bytes(self.magic, self.payload@));
        }
        out
    }
}

/// Concatenation of a sequence of byte strings, in order.
pub open spec fn concat_bytes(s: Seq<Seq<u8>>) -> Seq<u8>
    decreases s.len(),
{
    if s.len() == 0 {
        Seq::empty()
    } else {
        concat_bytes(s.drop_last()) + s.last()
    }
}

/// Concatenation of a sequence of byte strings, in reverse order.
pub open spec fn concat_bytes_rev(s: Seq<Seq<u8>>) -> Seq<u8>
    decreases s.len(),
{
    if s.len() == 0 {
        Seq::empty()
    } else {
        concat_bytes_rev(s.drop_first()) + s.first()
    }
}

/// Total length of a concatenation where every element has length `w`.
pub proof fn lemma_concat_uniform_len(s: Seq<Seq<u8>>, w: int)
    requires
        forall|i: int| 0 <= i < s.len() ==> (#[trigger] s[i]).len() == w,
        w >= 0,
    ensures
        concat_bytes(s).len() == s.len() * w,
    decreases s.len(),
{
    if s.len() == 0 {
    } else {
        lemma_concat_uniform_len(s.drop_last(), w);
        assert((s.len() - 1) * w + w == s.len() * w) by (nonlinear_arith);
    }
}

/// Total length of a reversed concatenation of uniform elements.
pub proof fn lemma_concat_rev_uniform_len(s: Seq<Seq<u8>>, w: int)
    requires
        forall|i: int| 0 <= i < s.len() ==> (#[trigger] s[i]).len() == w,
        w >= 0,
    ensures
        concat_bytes_rev(s).len() == s.len() * w,
    decreases s.len(),
{
    if s.len() == 0 {
    } else {
        assert(forall|i: int|
            0 <= i < s.drop_first().len() ==> (#[trigger] s.drop_first()[i]).len() == w);
        lemma_concat_rev_uniform_len(s.drop_first(), w);
        assert((s.len() - 1) * w + w == s.len() * w) by (nonlinear_arith);
    }
}

/// Build the RequirementSet blob.
///
/// Each expression is wrapped in a Requirement blob and indexed under
/// the designated-requirement type; an empty set is the 12-byte header
/// with a zero count.
pub fn requirement_set_blob(exprs: &Vec<Vec<u8>>) -> (r: BlobData)
    requires
        exprs@.len() <= 0xff,
        forall|i: int| 0 <= i < exprs@.len() ==> (#[trigger] exprs@[i])@.len() <= 0xffff,
    ensures
        r.magic == CSMAGIC_REQUIREMENT_SET,
        r.payload@ == spec_req_set_payload(exprs@.map_values(|v: Vec<u8>| v@)),
        r.payload@.len() == 4 + 8 * exprs@.len() + spec_req_blobs_len(
            exprs@.map_values(|v: Vec<u8>| v@),
            exprs@.len() as int,
        ),
        r.payload@.len() <= 0x1000000,
{
    let count = exprs.len();
    let mut payload: Vec<u8> = Vec::new();
    push_u32(&mut payload, count as u32, false);

    // Index entries: each requirement sits after the header, the count
    // and the index itself.
    let mut off: usize = 12 + 8 * count;
    let mut i: usize = 0;
    while i < count
        invariant
            count == exprs@.len(),
            count <= 0xff,
            forall|t: int| 0 <= t < exprs@.len() ==> (#[trigger] exprs@[t])@.len() <= 0xffff,
            i <= count,
            off == 12 + 8 * count + spec_req_blobs_len(exprs@.map_values(|v: Vec<u8>| v@), i as int),
            payload@ == be32(count as u32) + spec_req_index(
                exprs@.map_values(|v: Vec<u8>| v@),
                i as int,
            ),
        decreases count - i,
    {
        let ghost evs = exprs@.map_values(|v: Vec<u8>| v@);
        proof {
            lemma_req_blobs_len_bound(evs, i as int);
        }
        push_u32(&mut payload, REQUIREMENT_TYPE_DESIGNATED, false);
        push_u32(&mut payload, off as u32, false);
        proof {
            assert(payload@ =~= be32(count as u32) + spec_req_index(evs, i + 1));
        }
        off = off + exprs[i].len() + 8;
        i = i + 1;
    }
    let mut i: usize = 0;
    while i < count
        invariant
            count == exprs@.len(),
            count <= 0xff,
            forall|t: int| 0 <= t < exprs@.len() ==> (#[trigger] exprs@[t])@.len() <= 0xffff,
            i <= count,
            payload@ == be32(count as u32) + spec_req_index(
                exprs@.map_values(|v: Vec<u8>| v@),
                count as int,
            ) + spec_req_blobs(exprs@.map_values(|v: Vec<u8>| v@), i as int),
        decreases count - i,
    {
        let ghost evs = exprs@.map_values(|v: Vec<u8>| v@);
        let wrapped = BlobData { magic: CSMAGIC_REQUIREMENT, payload: exprs[i].clone() };
        proof {
            assert(wrapped.payload@ == evs[i as int]);
        }
        let bytes = wrapped.to_blob_bytes();
        push_bytes(&mut payload, &bytes);
        proof {
            assert(payload@ =~= be32(count as u32) + spec_req_index(evs, count as int)
                + spec_req_blobs(evs, i + 1));
        }
        i = i + 1;
    }
    proof {
        let evs = exprs@.map_values(|v: Vec<u8>| v@);
        assert(payload@ == spec_req_set_payload(evs));
        lemma_req_index_len(evs, count as int);
        lemma_req_blobs_len_agree(evs, count as int);
        lemma_req_blobs_len_bound(evs, count as int);
        crate::bytes::lemma_u32_bytes_len(count as u32, false);
    }
    BlobData { magic: CSMAGIC_REQUIREMENT_SET, payload }
}

/// The index entries of a RequirementSet, for the first `n`
/// expressions.
pub open spec fn spec_req_index(exprs: Seq<Seq<u8>>, n: int) -> Seq<u8>
    decreases n,
{
    if n <= 0 {
        Seq::empty()
    } else {
        spec_req_index(exprs, n - 1) + be32(REQUIREMENT_TYPE_DESIGNATED) + be32(
            (12 + 8 * exprs.len() + spec_req_blobs_len(exprs, n - 1)) as u32,
        )
    }
}

/// Serialized length of the first `n` wrapped requirement blobs.
pub open spec fn spec_req_blobs_len(exprs: Seq<Seq<u8>>, n: int) -> int
    decreases n,
{
    if n <= 0 {
        0
    } else {
        spec_req_blobs_len(exprs, n - 1) + exprs[n - 1].len() + 8
    }
}

/// The first `n` wrapped requirement blobs, concatenated.
pub open spec fn spec_req_blobs(exprs: Seq<Seq<u8>>, n: int) -> Seq<u8>
    decreases n,
{
    if n <= 0 {
        Seq::empty()
    } else {
        spec_req_blobs(exprs, n - 1) + spec_blob_bytes(CSMAGIC_REQUIREMENT, exprs[n - 1])
    }
}

/// The index table is eight bytes per entry.
pub proof fn lemma_req_index_len(exprs: Seq<Seq<u8>>, n: int)
    requires
        n >= 0,
    ensures
        spec_req_index(exprs, n).len() == 8 * n,
    decreases n,
{
    crate::bytes::lemma_u32_bytes_len(REQUIREMENT_TYPE_DESIGNATED, false);
    if n > 0 {
        lemma_req_index_len(exprs, n - 1);
        crate::bytes::lemma_u32_bytes_len(
            (12 + 8 * exprs.len() + spec_req_blobs_len(exprs, n - 1)) as u32,
            false,
        );
    }
}

/// The wrapped blobs really have the recorded length.
pub proof fn lemma_req_blobs_len_agree(exprs: Seq<Seq<u8>>, n: int)
    requires
        n >= 0,
    ensures
        spec_req_blobs(exprs, n).len() == spec_req_blobs_len(exprs, n),
    decreases n,
{
    if n > 0 {
        lemma_req_blobs_len_agree(exprs, n - 1);
        crate::bytes::lemma_u32_bytes_len(CSMAGIC_REQUIREMENT, false);
        crate::bytes::lemma_u32_bytes_len((exprs[n - 1].len() + 8) as u32, false);
    }
}

/// A numeric bound on the wrapped blobs' total length.
pub proof fn lemma_req_blobs_len_bound(exprs: Seq<Seq<u8>>, n: int)
    requires
        0 <= n <= exprs.len(),
        forall|i: int| 0 <= i < exprs.len() ==> (#[trigger] exprs[i]).len() <= 0xffff,
    ensures
        0 <= spec_req_blobs_len(exprs, n) <= n * 0x10007,
    decreases n,
{
    if n > 0 {
        lemma_req_blobs_len_bound(exprs, n - 1);
        assert((n - 1) * 0x10007 + 0x10007 == n * 0x10007) by (nonlinear_arith);
    }
}

/// The whole RequirementSet payload.
pub open spec fn spec_req_set_payload(exprs: Seq<Seq<u8>>) -> Seq<u8> {
    be32(exprs.len() as u32) + spec_req_index(exprs, exprs.len() as int) + spec_req_blobs(
        exprs,
        exprs.len() as int,
    )
}

} // verus!
