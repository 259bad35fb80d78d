//! The Code Directory blob.
//!
//! The Code Directory records the digest of every code page plus the
//! binary's identity and policy fields. Its version is the minimum
//! that admits every populated field and newer fields are zeroed; the
//! full byte layout of the serialized blob is [`spec_cd_bytes`].

use vstd::prelude::*;

use crate::blobs::{concat_bytes, concat_bytes_rev, CSMAGIC_CODEDIRECTORY};
use crate::bytes::{be32, be64, push_bytes, push_u32, push_u64, push_zeros};
use crate::digest::{spec_hash_len, spec_hash_type, DigestKind};

verus! {

pub const CD_VERSION_SCATTER: u32 = 0x20100;

pub const CD_VERSION_TEAM: u32 = 0x20200;

pub const CD_VERSION_CODE_LIMIT_64: u32 = 0x20300;

pub const CD_VERSION_EXEC_SEG: u32 = 0x20400;

pub const CD_VERSION_RUNTIME: u32 = 0x20500;

/// A Code Directory, field by field.
#[derive(Debug)]
pub struct CodeDirectoryBlob {
    pub version: u32,
    pub flags: u32,
    pub code_limit: u32,
    pub code_limit_64: Option<u64>,
    pub digest_kind: DigestKind,
    pub platform: u8,
    pub page_size_log2: u8,
    /// Identifier string bytes, without the trailing NUL.
    pub ident: Vec<u8>,
    /// Team identifier bytes, without the trailing NUL.
    pub team_name: Option<Vec<u8>>,
    /// Digest for special slot `i + 1`; absent slots hold a zero
    /// digest.
    pub special_digests: Vec<Vec<u8>>,
    pub code_digests: Vec<Vec<u8>>,
    /// Base, limit and flags of the executable segment.
    pub exec_seg: Option<(u64, u64, u64)>,
    /// Hardened-runtime version, nibble encoded.
    pub runtime: Option<u32>,
}

/// The ghost view of a Code Directory: every field at the
/// mathematical level, so whole directories can be written down in
/// specifications.
pub struct CdView {
    pub version: u32,
    pub flags: u32,
    pub code_limit: u32,
    pub code_limit_64: Option<u64>,
    pub digest_kind: DigestKind,
    pub platform: u8,
    pub page_size_log2: u8,
    pub ident: Seq<u8>,
    pub team: Option<Seq<u8>>,
    pub specials: Seq<Seq<u8>>,
    pub code: Seq<Seq<u8>>,
    pub exec_seg: Option<(u64, u64, u64)>,
    pub runtime: Option<u32>,
}

impl View for CodeDirectoryBlob {
    type V = CdView;

    open spec fn view(&self) -> CdView {
        CdView {
            version: self.version,
            flags: self.flags,
            code_limit: self.code_limit,
            code_limit_64: self.code_limit_64,
            digest_kind: self.digest_kind,
            platform: self.platform,
            page_size_log2: self.page_size_log2,
            ident: self.ident@,
            team: match self.team_name {
                Some(t) => Some(t@),
                None => None,
            },
            specials: self.special_digests@.map_values(|v: Vec<u8>| v@),
            code: self.code_digests@.map_values(|v: Vec<u8>| v@),
            exec_seg: self.exec_seg,
            runtime: self.runtime,
        }
    }
}

/// The minimum version admitting every populated field.
pub open spec fn spec_cdv_version(v: CdView) -> u32 {
    if v.runtime is Some {
        CD_VERSION_RUNTIME
    } else if v.exec_seg is Some {
        CD_VERSION_EXEC_SEG
    } else if v.code_limit_64 is Some {
        CD_VERSION_CODE_LIMIT_64
    } else if v.team is Some {
        CD_VERSION_TEAM
    } else {
        CD_VERSION_SCATTER
    }
}

/// The minimum version admitting every populated field.
pub open spec fn spec_cd_version(cd: CodeDirectoryBlob) -> u32 {
    spec_cdv_version(cd@)
}

/// Header length of each version.
pub open spec fn spec_cd_header_len(version: u32) -> int {
    if version >= CD_VERSION_RUNTIME {
        96
    } else if version >= CD_VERSION_EXEC_SEG {
        88
    } else if version >= CD_VERSION_CODE_LIMIT_64 {
        64
    } else if version >= CD_VERSION_TEAM {
        52
    } else {
        48
    }
}

impl CodeDirectoryBlob {
    /// Field sizes that keep every offset within `u32`.
    pub open spec fn wf(self) -> bool {
        &&& (self.version == CD_VERSION_SCATTER || self.version == CD_VERSION_TEAM || self.version
            == CD_VERSION_CODE_LIMIT_64 || self.version == CD_VERSION_EXEC_SEG || self.version
            == CD_VERSION_RUNTIME)
        &&& forall|i: int|
            0 <= i < self.special_digests@.len() ==> (#[trigger] self.special_digests@[i])@.len()
                == spec_hash_len(self.digest_kind)
        &&& forall|i: int|
            0 <= i < self.code_digests@.len() ==> (#[trigger] self.code_digests@[i])@.len()
                == spec_hash_len(self.digest_kind)
        &&& self.ident@.len() <= 0xffff
        &&& match self.team_name {
            Some(t) => t@.len() <= 0xffff,
            None => true,
        }
        &&& self.special_digests@.len() <= 11
        &&& self.code_digests@.len() <= 0x1000000
    }

    /// Offset of the identifier string.
    pub open spec fn spec_ident_offset(self) -> int {
        spec_cdv_ident_offset(self@)
    }

    /// Offset of the team string, 0 when absent.
    pub open spec fn spec_team_offset(self) -> int {
        spec_cdv_team_offset(self@)
    }

    /// Offset of the slot-zero digest; special slots sit right before.
    pub open spec fn spec_hash_offset(self) -> int {
        spec_cdv_hash_offset(self@)
    }

    /// Total serialized length of the blob.
    pub open spec fn spec_total_len(self) -> int {
        spec_cdv_total_len(self@)
    }

    /// Header bytes: everything before the identifier string.
    pub open spec fn spec_header_bytes(self) -> Seq<u8> {
        spec_cdv_header_bytes(self@)
    }
}

/// Offset of the identifier string.
pub open spec fn spec_cdv_ident_offset(v: CdView) -> int {
    spec_cd_header_len(v.version)
}

/// Offset of the team string, 0 when absent.
pub open spec fn spec_cdv_team_offset(v: CdView) -> int {
    if v.team is Some {
        spec_cd_header_len(v.version) + v.ident.len() + 1
    } else {
        0
    }
}

/// Offset of the slot-zero digest; special slots sit right before.
pub open spec fn spec_cdv_hash_offset(v: CdView) -> int {
    spec_cd_header_len(v.version) + v.ident.len() + 1 + (match v.team {
        Some(t) => t.len() as int + 1,
        None => 0int,
    }) + v.specials.len() * spec_hash_len(v.digest_kind)
}

/// Total serialized length of the blob.
pub open spec fn spec_cdv_total_len(v: CdView) -> int {
    spec_cdv_hash_offset(v) + v.code.len() * spec_hash_len(v.digest_kind)
}

/// Header bytes: everything before the identifier string.
pub open spec fn spec_cdv_header_bytes(v: CdView) -> Seq<u8> {
    be32(CSMAGIC_CODEDIRECTORY) + be32(spec_cdv_total_len(v) as u32) + be32(v.version) + be32(
        v.flags,
    ) + be32(spec_cdv_hash_offset(v) as u32) + be32(spec_cdv_ident_offset(v) as u32) + be32(
        v.specials.len() as u32,
    ) + be32(v.code.len() as u32) + be32(v.code_limit) + seq![
        spec_hash_len(v.digest_kind) as u8,
        spec_hash_type(v.digest_kind),
        v.platform,
        v.page_size_log2,
    ] + be32(0) + (if v.version >= CD_VERSION_SCATTER {
        be32(0)
    } else {
        Seq::empty()
    }) + (if v.version >= CD_VERSION_TEAM {
        be32(spec_cdv_team_offset(v) as u32)
    } else {
        Seq::empty()
    }) + (if v.version >= CD_VERSION_CODE_LIMIT_64 {
        be32(0) + be64(
            match v.code_limit_64 {
                Some(x) => x,
                None => 0,
            },
        )
    } else {
        Seq::empty()
    }) + (if v.version >= CD_VERSION_EXEC_SEG {
        be64(
            match v.exec_seg {
                Some((b, _, _)) => b,
                None => 0,
            },
        ) + be64(
            match v.exec_seg {
                Some((_, l, _)) => l,
                None => 0,
            },
        ) + be64(
            match v.exec_seg {
                Some((_, _, f)) => f,
                None => 0,
            },
        )
    } else {
        Seq::empty()
    }) + (if v.version >= CD_VERSION_RUNTIME {
        be32(
            match v.runtime {
                Some(x) => x,
                None => 0,
            },
        ) + be32(0)
    } else {
        Seq::empty()
    })
}

/// The header's byte length matches its version.
pub proof fn lemma_cdv_header_bytes_len(v: CdView)
    requires
        v.version >= CD_VERSION_SCATTER,
    ensures
        spec_cdv_header_bytes(v).len() == spec_cd_header_len(v.version),
{
    assert forall|x: u32| (#[trigger] be32(x)).len() == 4 by {
        reveal(crate::bytes::be32);
    }
    assert forall|x: u64| (#[trigger] be64(x)).len() == 8 by {
        reveal(crate::bytes::be64);
    }
}

/// The header's byte length matches its version.
pub proof fn lemma_cd_header_bytes_len(cd: CodeDirectoryBlob)
    requires
        cd.version >= CD_VERSION_SCATTER,
    ensures
        cd.spec_header_bytes().len() == spec_cd_header_len(cd.version),
{
    lemma_cdv_header_bytes_len(cd@);
}

/// The serialized Code Directory: header, identifier, optional team,
/// special digests in descending slot order, code digests in page
/// order.
pub open spec fn spec_cdv_bytes(v: CdView) -> Seq<u8> {
    spec_cdv_header_bytes(v) + v.ident + seq![0u8] + (match v.team {
        Some(t) => t + seq![0u8],
        None => Seq::empty(),
    }) + concat_bytes_rev(v.specials) + concat_bytes(v.code)
}

/// The serialized Code Directory, at the record level.
pub open spec fn spec_cd_bytes(cd: CodeDirectoryBlob) -> Seq<u8> {
    spec_cdv_bytes(cd@)
}

impl CodeDirectoryBlob {
    /// Set `version` to the minimum admitting every populated field.
    pub fn adjust_version(&mut self)
        ensures
            final(self).version == spec_cd_version(*old(self)),
            *final(self) == (CodeDirectoryBlob { version: final(self).version, ..*old(self) }),
    {
        self.version = if self.runtime.is_some() {
            CD_VERSION_RUNTIME
        } else if self.exec_seg.is_some() {
            CD_VERSION_EXEC_SEG
        } else if self.code_limit_64.is_some() {
            CD_VERSION_CODE_LIMIT_64
        } else if self.team_name.is_some() {
            CD_VERSION_TEAM
        } else {
            CD_VERSION_SCATTER
        };
    }

    /// Drop fields newer than the current version.
    pub fn clear_newer_fields(&mut self)
        ensures
            final(self).version == old(self).version,
            final(self).runtime == if old(self).version >= CD_VERSION_RUNTIME {
                old(self).runtime
            } else {
                None
            },
            final(self).exec_seg == if old(self).version >= CD_VERSION_EXEC_SEG {
                old(self).exec_seg
            } else {
                None
            },
            final(self).code_limit_64 == if old(self).version >= CD_VERSION_CODE_LIMIT_64 {
                old(self).code_limit_64
            } else {
                None
            },
            final(self).team_name == if old(self).version >= CD_VERSION_TEAM {
                old(self).team_name
            } else {
                None::<Vec<u8>>
            },
            final(self).flags == old(self).flags,
            final(self).code_limit == old(self).code_limit,
            final(self).digest_kind == old(self).digest_kind,
            final(self).platform == old(self).platform,
            final(self).page_size_log2 == old(self).page_size_log2,
            final(self).ident == old(self).ident,
            final(self).special_digests == old(self).special_digests,
            final(self).code_digests == old(self).code_digests,
    {
        if self.version < CD_VERSION_RUNTIME {
            self.runtime = None;
        }
        if self.version < CD_VERSION_EXEC_SEG {
            self.exec_seg = None;
        }
        if self.version < CD_VERSION_CODE_LIMIT_64 {
            self.code_limit_64 = None;
        }
        if self.version < CD_VERSION_TEAM {
            self.team_name = None;
        }
    }

    /// Record `digest` for special slot `slot_index`, zero-filling any
    /// slots opened in between.
    pub fn set_slot_digest(&mut self, slot_index: usize, digest: Vec<u8>)
        requires
            1 <= slot_index <= 11,
            digest@.len() == spec_hash_len(old(self).digest_kind),
            forall|i: int|
                0 <= i < old(self).special_digests@.len() ==> (#[trigger] old(self).special_digests@[i])@.len()
                    == spec_hash_len(old(self).digest_kind),
        ensures
            final(self).special_digests@.len() == (if old(self).special_digests@.len() >= slot_index {
                old(self).special_digests@.len() as int
            } else {
                slot_index as int
            }),
            final(self).special_digests@[slot_index - 1]@ == digest@,
            forall|i: int|
                0 <= i < final(self).special_digests@.len() && i != slot_index - 1 ==> (
                #[trigger] final(self).special_digests@[i])@ == if i < old(self).special_digests@.len() {
                    old(self).special_digests@[i]@
                } else {
                    Seq::new(spec_hash_len(old(self).digest_kind) as nat, |j: int| 0u8)
                },
            forall|i: int|
                0 <= i < final(self).special_digests@.len() ==> (#[trigger] final(self).special_digests@[i])@.len()
                    == spec_hash_len(old(self).digest_kind),
            *final(self) == (CodeDirectoryBlob {
                special_digests: final(self).special_digests,
                ..*old(self)
            }),
    {
        let hash_len = self.digest_kind.hash_len();
        while self.special_digests.len() < slot_index
            invariant
                slot_index <= 11,
                old(self).special_digests@.len() >= slot_index
                    ==> self.special_digests@.len() == old(self).special_digests@.len(),
                old(self).special_digests@.len() < slot_index ==> self.special_digests@.len()
                    <= slot_index,
                hash_len == spec_hash_len(self.digest_kind),
                forall|i: int|
                    0 <= i < self.special_digests@.len() ==> (
                    #[trigger] self.special_digests@[i])@ == if i < old(self).special_digests@.len() {
                        old(self).special_digests@[i]@
                    } else {
                        Seq::new(spec_hash_len(self.digest_kind) as nat, |j: int| 0u8)
                    },
                self.special_digests@.len() >= old(self).special_digests@.len(),
                *self == (CodeDirectoryBlob { special_digests: self.special_digests, ..*old(self) }),
            decreases slot_index - self.special_digests@.len(),
        {
            let mut z: Vec<u8> = Vec::new();
            push_zeros(&mut z, hash_len);
            self.special_digests.push(z);
        }
        self.special_digests.set(slot_index - 1, digest);
    }

    /// Serialize the fixed-size header fields.
    #[verifier::rlimit(100)]
    #[verifier::spinoff_prover]
    fn serialize_header(&self) -> (r: Vec<u8>)
        requires
            self.wf(),
        ensures
            r@ == self.spec_header_bytes(),
            r@.len() == spec_cd_header_len(self.version),
    {
        let hash_len: usize = self.digest_kind.hash_len();
        let header_len: usize = if self.version >= CD_VERSION_RUNTIME {
            96
        } else if self.version >= CD_VERSION_EXEC_SEG {
            88
        } else if self.version >= CD_VERSION_CODE_LIMIT_64 {
            64
        } else if self.version >= CD_VERSION_TEAM {
            52
        } else {
            48
        };
        let nspecial: usize = self.special_digests.len();
        let ncode: usize = self.code_digests.len();
        let team_len_1: usize = match &self.team_name {
            Some(t) => t.len() + 1,
            None => 0,
        };
        let ident_offset: usize = header_len;
        let team_offset: usize = match &self.team_name {
            Some(_) => header_len + self.ident.len() + 1,
            None => 0,
        };
        proof {
            crate::blobs::lemma_concat_rev_uniform_len(
                self.special_digests@.map_values(|v: Vec<u8>| v@),
                spec_hash_len(self.digest_kind),
            );
            crate::blobs::lemma_concat_uniform_len(
                self.code_digests@.map_values(|v: Vec<u8>| v@),
                spec_hash_len(self.digest_kind),
            );
        }
        let hash_offset: usize = header_len + self.ident.len() + 1 + team_len_1 + nspecial
            * hash_len;
        let total: usize = hash_offset + ncode * hash_len;

        let mut out: Vec<u8> = Vec::new();
        push_u32(&mut out, CSMAGIC_CODEDIRECTORY, false);
        push_u32(&mut out, total as u32, false);
        push_u32(&mut out, self.version, false);
        push_u32(&mut out, self.flags, false);
        push_u32(&mut out, hash_offset as u32, false);
        push_u32(&mut out, ident_offset as u32, false);
        push_u32(&mut out, nspecial as u32, false);
        push_u32(&mut out, ncode as u32, false);
        push_u32(&mut out, self.code_limit, false);
        let ghost h1 = out@;
        out.push(hash_len as u8);
        out.push(self.digest_kind.hash_type());
        out.push(self.platform);
        out.push(self.page_size_log2);
        proof {
            assert(out@ =~= h1 + seq![
                spec_hash_len(self.digest_kind) as u8,
                spec_hash_type(self.digest_kind),
                self.platform,
                self.page_size_log2,
            ]);
        }
        push_u32(&mut out, 0, false);
        if self.version >= CD_VERSION_SCATTER {
            push_u32(&mut out, 0, false);
        }
        if self.version >= CD_VERSION_TEAM {
            push_u32(&mut out, team_offset as u32, false);
        }
        if self.version >= CD_VERSION_CODE_LIMIT_64 {
            push_u32(&mut out, 0, false);
            push_u64(
                &mut out,
                match self.code_limit_64 {
                    Some(v) => v,
                    None => 0,
                },
                false,
            );
        }
        if self.version >= CD_VERSION_EXEC_SEG {
            let (b, l, f) = match self.exec_seg {
                Some(t) => t,
                None => (0, 0, 0),
            };
            push_u64(&mut out, b, false);
            push_u64(&mut out, l, false);
            push_u64(&mut out, f, false);
        }
        if self.version >= CD_VERSION_RUNTIME {
            push_u32(
                &mut out,
                match self.runtime {
                    Some(v) => v,
                    None => 0,
                },
                false,
            );
            push_u32(&mut out, 0, false);
        }
        proof {
            assert forall|x: u32| (#[trigger] be32(x)).len() == 4 by {
                reveal(crate::bytes::be32);
            }
            assert forall|x: u64| (#[trigger] be64(x)).len() == 8 by {
                reveal(crate::bytes::be64);
            }
            assert(Seq::<u8>::empty() + be32(CSMAGIC_CODEDIRECTORY) =~= be32(
                CSMAGIC_CODEDIRECTORY,
            ));
            assert(out@ == self.spec_header_bytes());
            lemma_cd_header_bytes_len(*self);
        }
        out
    }

    /// Serialize the blob; the result is exactly [`spec_cd_bytes`].
    #[verifier::rlimit(100)]
    pub fn serialize(&self) -> (r: Vec<u8>)
        requires
            self.wf(),
        ensures
            r@ == spec_cd_bytes(*self),
            r@.len() == self.spec_total_len(),
    {
        proof {
            crate::blobs::lemma_concat_rev_uniform_len(
                self.special_digests@.map_values(|v: Vec<u8>| v@),
                spec_hash_len(self.digest_kind),
            );
            crate::blobs::lemma_concat_uniform_len(
                self.code_digests@.map_values(|v: Vec<u8>| v@),
                spec_hash_len(self.digest_kind),
            );
        }
        let nspecial: usize = self.special_digests.len();
        let ncode: usize = self.code_digests.len();
        let header = self.serialize_header();
        let mut out: Vec<u8> = Vec::new();
        push_bytes(&mut out, &header);
        push_bytes(&mut out, &self.ident);
        out.push(0u8);
        match &self.team_name {
            Some(t) => {
                push_bytes(&mut out, t);
                out.push(0u8);
            },
            None => {},
        }
        let ghost mid = out@;
        proof {
            assert(mid =~= self.spec_header_bytes() + self.ident@ + seq![0u8] + (
            match self.team_name {
                Some(t) => t@ + seq![0u8],
                None => Seq::<u8>::empty(),
            }));
        }

        // Special slot digests, highest slot first.
        let mut i: usize = nspecial;
        while i > 0
            invariant
                nspecial == self.special_digests@.len(),
                i <= nspecial,
                forall|t: int|
                    0 <= t < self.special_digests@.len() ==> (
                    #[trigger] self.special_digests@[t])@.len() == spec_hash_len(self.digest_kind),
                out@ == mid + concat_bytes_rev(
                    self.special_digests@.map_values(|v: Vec<u8>| v@).skip(i as int),
                ),
            decreases i,
        {
            let ghost svs = self.special_digests@.map_values(|v: Vec<u8>| v@);
            push_bytes(&mut out, &self.special_digests[i - 1]);
            proof {
                assert(svs.skip(i - 1).drop_first() =~= svs.skip(i as int));
                assert(out@ =~= mid + concat_bytes_rev(svs.skip(i - 1)));
            }
            i = i - 1;
        }
        proof {
            assert(self.special_digests@.map_values(|v: Vec<u8>| v@).skip(0)
                =~= self.special_digests@.map_values(|v: Vec<u8>| v@));
        }
        let ghost mid2 = out@;

        // Code digests in page order.
        let mut i: usize = 0;
        while i < ncode
            invariant
                ncode == self.code_digests@.len(),
                i <= ncode,
                out@ == mid2 + concat_bytes(
                    self.code_digests@.map_values(|v: Vec<u8>| v@).take(i as int),
                ),
            decreases ncode - i,
        {
            let ghost cvs = self.code_digests@.map_values(|v: Vec<u8>| v@);
            push_bytes(&mut out, &self.code_digests[i]);
            proof {
                assert(cvs.take(i + 1).drop_last() =~= cvs.take(i as int));
                assert(out@ =~= mid2 + concat_bytes(cvs.take(i + 1)));
            }
            i = i + 1;
        }
        proof {
            assert(self.code_digests@.map_values(|v: Vec<u8>| v@).take(ncode as int)
                =~= self.code_digests@.map_values(|v: Vec<u8>| v@));
            assert(out@ =~= spec_cd_bytes(*self));
        }
        out
    }
}

} // verus!
