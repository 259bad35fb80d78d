//! Signing Mach-O binaries.
//!
//! `MachOSigner` parses a thin or universal input once, and per slice
//! runs the two-pass scheme that breaks the circular dependency
//! between the Code Directory and the load commands it hashes: reserve
//! an estimated signature size, rewrite with NULs, hash the
//! intermediate image, build the real SuperBlob, pad it to the
//! reservation and rewrite again.

use vstd::prelude::*;

use crate::blobs::{
    requirement_set_blob, spec_blob_bytes, spec_req_set_payload, spec_slot_id, BlobData,
    CodeSigningSlot, CSMAGIC_BLOBWRAPPER, CSMAGIC_EMBEDDED_ENTITLEMENTS,
    CSMAGIC_EMBEDDED_ENTITLEMENTS_DER, CSMAGIC_EMBEDDED_LAUNCH_CONSTRAINT,
    CSMAGIC_REQUIREMENT_SET,
};
use crate::bytes::clone_bytes;
use crate::code_directory::{spec_cd_version, spec_cdv_version, CodeDirectoryBlob};
use crate::digest::{
    compute_code_digests, digest_of, spec_hash_len, spec_page_chunk, spec_page_count, DigestKind,
};
use crate::entitlements::{
    plist_to_executable_segment_flags, spec_entitlements_der, spec_plist_exec_seg_flags,
    EXEC_SEG_MAIN_BINARY,
};
use crate::errors::SigningError;
use crate::macho::{
    find_exec_seg_rec, find_linkedit_rec, parse_macho, MachOImage, MH_EXECUTE,
};
use crate::rewrite::{create_macho_with_signature, spec_rewrite_ok};
use crate::settings::{spec_req_exprs, DesignatedRequirementMode, SigningSettings, CS_ADHOC,
    CS_LINKER_SIGNED, CS_RUNTIME};
use crate::superblob::{spec_superblob_len, EmbeddedSignatureBuilder};
use crate::universal::{create_universal_macho, is_fat, parse_fat};

verus! {

/// A CMS signing oracle: produces a CMS SignedData over the canonical
/// Code Directory bytes. Implementations may consult keys, remote
/// signers and timestamp authorities; the library promises nothing of
/// the bytes that come back.
pub trait CmsSigner {
    /// Sign the serialized Code Directory.
    fn create_signature(&mut self, code_directory: &Vec<u8>) -> Result<Vec<u8>, SigningError>;
}

/// The oracle used for ad-hoc signing: it is never consulted, and
/// refuses if it ever is.
pub struct NullCmsSigner {}

impl CmsSigner for NullCmsSigner {
    fn create_signature(&mut self, code_directory: &Vec<u8>) -> Result<Vec<u8>, SigningError> {
        Err(SigningError::Cms(String::new()))
    }
}

/// The special blobs implied by the settings: slot id, magic and
/// payload, in ascending slot order.
pub open spec fn spec_special_blob_list(s: SigningSettings, is_exec: bool) -> Seq<
    (int, u32, Seq<u8>),
> {
    seq![
        (2int, CSMAGIC_REQUIREMENT_SET, spec_req_set_payload(spec_req_exprs(s))),
    ] + (match s.entitlements_xml {
        Some(x) => seq![(5int, CSMAGIC_EMBEDDED_ENTITLEMENTS, x@)],
        None => Seq::empty(),
    }) + (if is_exec {
        match s.entitlements_plist {
            Some(d) => seq![
                (7int, CSMAGIC_EMBEDDED_ENTITLEMENTS_DER, spec_entitlements_der(d@)),
            ],
            None => Seq::empty(),
        }
    } else {
        Seq::empty()
    }) + (match s.launch_constraints_self {
        Some(b) => seq![(8int, CSMAGIC_EMBEDDED_LAUNCH_CONSTRAINT, b@)],
        None => Seq::empty(),
    }) + (match s.launch_constraints_parent {
        Some(b) => seq![(9int, CSMAGIC_EMBEDDED_LAUNCH_CONSTRAINT, b@)],
        None => Seq::empty(),
    }) + (match s.launch_constraints_responsible {
        Some(b) => seq![(10int, CSMAGIC_EMBEDDED_LAUNCH_CONSTRAINT, b@)],
        None => Seq::empty(),
    }) + (match s.library_constraints {
        Some(b) => seq![(11int, CSMAGIC_EMBEDDED_LAUNCH_CONSTRAINT, b@)],
        None => Seq::empty(),
    })
}

/// Total serialized size of a blob list: payload plus the 8-byte
/// header each.
pub open spec fn spec_blob_list_size(l: Seq<(int, u32, Seq<u8>)>, n: int) -> int
    decreases n,
{
    if n <= 0 {
        0
    } else {
        spec_blob_list_size(l, n - 1) + l[n - 1].2.len() + 8
    }
}

/// The flags stored in a Code Directory: the configured flags with
/// ADHOC forced or cleared by the presence of an identity, and the
/// linker-signed flag always cleared.
pub open spec fn spec_cd_flags(s: SigningSettings) -> u32 {
    if s.signing is None {
        (s.flags | CS_ADHOC) & !CS_LINKER_SIGNED
    } else {
        s.flags & !CS_ADHOC & !CS_LINKER_SIGNED
    }
}

/// Pushing a special blob with the next slot keeps every accumulated
/// fact: payload bounds, the slot range, and strictly ascending slots.
proof fn lemma_special_blob_push(
    v0: Seq<(CodeSigningSlot, BlobData)>,
    v1: Seq<(CodeSigningSlot, BlobData)>,
    x: (CodeSigningSlot, BlobData),
    kx: int,
)
    requires
        v1 == v0.push(x),
        forall|j: int| 0 <= j < v0.len() ==> (#[trigger] v0[j]).1.payload@.len() <= 0x1000010,
        x.1.payload@.len() <= 0x1000010,
        forall|j: int| 0 <= j < v0.len() ==> 2 <= spec_slot_id((#[trigger] v0[j]).0) < kx,
        forall|j: int|
            1 <= j < v0.len() ==> spec_slot_id((#[trigger] v0[j]).0) > spec_slot_id(v0[j - 1].0),
        2 <= kx <= 11,
        spec_slot_id(x.0) == kx,
    ensures
        forall|j: int| 0 <= j < v1.len() ==> (#[trigger] v1[j]).1.payload@.len() <= 0x1000010,
        forall|j: int| 0 <= j < v1.len() ==> 2 <= spec_slot_id((#[trigger] v1[j]).0) <= kx,
        forall|j: int|
            1 <= j < v1.len() ==> spec_slot_id((#[trigger] v1[j]).0) > spec_slot_id(v1[j - 1].0),
{
    assert forall|j: int| 0 <= j < v1.len() implies (#[trigger] v1[j]).1.payload@.len()
        <= 0x1000010 && 2 <= spec_slot_id(v1[j].0) <= kx by {
        if j < v0.len() {
            assert(v1[j] == v0[j]);
        }
    }
    assert forall|j: int| 1 <= j < v1.len() implies spec_slot_id((#[trigger] v1[j]).0)
        > spec_slot_id(v1[j - 1].0) by {
        assert(v1[j - 1] == v0[j - 1]);
        if j < v0.len() {
            assert(v1[j] == v0[j]);
        }
    }
}

/// Mach-O binary signer over one parsed input.
pub struct MachOSigner {
    /// The raw bytes of each architecture slice.
    pub slices: Vec<Vec<u8>>,
    /// The parsed view of each slice.
    pub images: Vec<MachOImage>,
}

impl MachOSigner {
    /// Every image is the faithful view of its slice bytes.
    pub open spec fn wf(self) -> bool {
        &&& self.slices@.len() == self.images@.len()
        &&& 1 <= self.slices@.len()
        &&& forall|i: int|
            0 <= i < self.images@.len() ==> (#[trigger] self.images@[i]).wf(self.slices@[i]@)
    }

    /// Parse unsigned or signed input data, thin or universal.
    ///
    /// On success the signer holds one parsed image per slice; a thin
    /// input gives exactly one slice with the input bytes.
    pub fn new(macho_data: &[u8]) -> (r: Result<MachOSigner, SigningError>)
        ensures
            match r {
                Ok(s) => {
                    &&& s.wf()
                    &&& (!crate::universal::spec_is_fat(macho_data@) ==> s.slices@.len() == 1
                        && s.slices@[0]@ == macho_data@)
                    &&& (crate::universal::spec_is_fat(macho_data@) ==> {
                        &&& s.slices@.len() == crate::bytes::u32_at(macho_data@, 4, false)
                        &&& forall|i: int|
                            0 <= i < s.slices@.len() ==> (#[trigger] s.slices@[i])@
                                == macho_data@.subrange(
                                crate::bytes::u32_at(macho_data@, 8 + 20 * i + 8, false) as int,
                                crate::bytes::u32_at(macho_data@, 8 + 20 * i + 8, false)
                                    + crate::bytes::u32_at(macho_data@, 8 + 20 * i + 12, false),
                            )
                    })
                },
                Err(e) => e is ParseError || e is UnsupportedBinary,
            },
    {
        if is_fat(macho_data) {
            let archs = match parse_fat(macho_data) {
                Ok(v) => v,
                Err(e) => {
                    return Err(e);
                },
            };
            let mut slices: Vec<Vec<u8>> = Vec::new();
            let mut images: Vec<MachOImage> = Vec::new();
            let n = archs.len();
            if n == 0 {
                return Err(SigningError::ParseError);
            }
            let mut i: usize = 0;
            while i < n
                invariant
                    n == archs@.len(),
                    forall|j: int|
                        0 <= j < n ==> crate::universal::fat_arch_wf(
                            #[trigger] archs@[j],
                            macho_data@,
                            j,
                        ),
                    slices@.len() == images@.len(),
                    slices@.len() == i,
                    i <= n,
                    n == crate::bytes::u32_at(macho_data@, 4, false),
                    forall|j: int|
                        0 <= j < i ==> (#[trigger] images@[j]).wf(slices@[j]@),
                    forall|j: int|
                        0 <= j < i ==> (#[trigger] slices@[j])@ == macho_data@.subrange(
                            crate::bytes::u32_at(macho_data@, 8 + 20 * j + 8, false) as int,
                            crate::bytes::u32_at(macho_data@, 8 + 20 * j + 8, false)
                                + crate::bytes::u32_at(macho_data@, 8 + 20 * j + 12, false),
                        ),
                decreases n - i,
            {
                let _dn: usize = macho_data.len();
                proof {
                    assert(crate::universal::fat_arch_wf(
                        archs@[i as int],
                        macho_data@,
                        i as int,
                    ));
                }
                let off = archs[i].offset as usize;
                let size = archs[i].size as usize;
                let slice_bytes = vstd::slice::slice_to_vec(
                    vstd::slice::slice_subrange(macho_data, off, off + size),
                );
                let img = match parse_macho(slice_bytes.as_slice()) {
                    Ok(v) => v,
                    Err(e) => {
                        return Err(e);
                    },
                };
                slices.push(slice_bytes);
                images.push(img);
                i = i + 1;
            }
            Ok(MachOSigner { slices, images })
        } else {
            let slice_bytes = vstd::slice::slice_to_vec(
                vstd::slice::slice_subrange(macho_data, 0, macho_data.len()),
            );
            proof {
                assert(slice_bytes@ =~= macho_data@);
            }
            let img = match parse_macho(slice_bytes.as_slice()) {
                Ok(v) => v,
                Err(e) => {
                    return Err(e);
                },
            };
            let mut slices: Vec<Vec<u8>> = Vec::new();
            let mut images: Vec<MachOImage> = Vec::new();
            slices.push(slice_bytes);
            images.push(img);
            Ok(MachOSigner { slices, images })
        }
    }

    /// Build the blobs other than the Code Directories and the
    /// Signature: the RequirementSet (always, possibly empty), the
    /// Entitlements XML, the DER entitlements for executables, and the
    /// constraint blobs.
    ///
    /// Fails with `NoIdentifier` exactly when automatic requirement
    /// derivation has an identity to derive from but the settings
    /// carry no identifier.
    #[verifier::rlimit(100)]
    #[verifier::spinoff_prover]
    pub fn create_special_blobs(
        &self,
        settings: &SigningSettings,
        is_executable: bool,
    ) -> (r: Result<Vec<(CodeSigningSlot, BlobData)>, SigningError>)
        requires
            settings.spec_bounded(),
        ensures
            match r {
                Ok(v) => {
                    &&& v@.map_values(
                        |p: (CodeSigningSlot, BlobData)|
                            (spec_slot_id(p.0), p.1.magic, p.1.payload@),
                    ) == spec_special_blob_list(*settings, is_executable)
                    &&& (forall|j: int|
                        0 <= j < v@.len() ==> (#[trigger] v@[j]).1.payload@.len() <= 0x1000010)
                    &&& (forall|j: int|
                        0 <= j < v@.len() ==> 2 <= spec_slot_id((#[trigger] v@[j]).0) <= 11)
                    &&& (forall|j: int|
                        1 <= j < v@.len() ==> spec_slot_id((#[trigger] v@[j]).0) > spec_slot_id(
                            v@[j - 1].0,
                        ))
                    &&& !(settings.designated_requirement is Auto && settings.signing is Some
                        && settings.identifier is None)
                },
                Err(e) => {
                    &&& e is NoIdentifier
                    &&& settings.designated_requirement is Auto && settings.signing is Some
                        && settings.identifier is None
                },
            },
    {
        let ghost g = |p: (CodeSigningSlot, BlobData)| (spec_slot_id(p.0), p.1.magic, p.1.payload@);

        // Requirement expressions.
        let mut exprs: Vec<Vec<u8>> = Vec::new();
        match &settings.designated_requirement {
            DesignatedRequirementMode::Auto => {
                match &settings.signing {
                    Some(id) => {
                        if settings.identifier.is_none() {
                            return Err(SigningError::NoIdentifier);
                        }
                        match &id.derived_requirement {
                            Some(d) => {
                                exprs.push(clone_bytes(d));
                            },
                            None => {},
                        }
                    },
                    None => {},
                }
            },
            DesignatedRequirementMode::Explicit(es) => {
                let n = es.len();
                let mut i: usize = 0;
                while i < n
                    invariant
                        n == es@.len(),
                        i <= n,
                        exprs@.len() == i,
                        forall|j: int| 0 <= j < i ==> (#[trigger] exprs@[j])@ == es@[j]@,
                    decreases n - i,
                {
                    exprs.push(clone_bytes(&es[i]));
                    i = i + 1;
                }
            },
        }
        proof {
            assert(exprs@.map_values(|v: Vec<u8>| v@) =~~= spec_req_exprs(*settings));
            settings.lemma_bounded_req_exprs();
        }

        let mut v: Vec<(CodeSigningSlot, BlobData)> = Vec::new();
        let req_blob = requirement_set_blob(&exprs);
        v.push((CodeSigningSlot::RequirementSet, req_blob));
        proof {
            assert(forall|j: int|
                0 <= j < v@.len() ==> (#[trigger] v@[j]).1.payload@.len() <= 0x1000010);
            assert(forall|j: int|
                0 <= j < v@.len() ==> 2 <= spec_slot_id((#[trigger] v@[j]).0) <= 11);
            assert(forall|j: int|
                1 <= j < v@.len() ==> spec_slot_id((#[trigger] v@[j]).0) > spec_slot_id(
                    v@[j - 1].0,
                ));
        }
        proof {
            assert(v@.map_values(g) =~~= seq![
                (
                    2int,
                    CSMAGIC_REQUIREMENT_SET,
                    spec_req_set_payload(spec_req_exprs(*settings)),
                ),
            ]);
        }
        let ghost m1 = v@.map_values(g);

        match &settings.entitlements_xml {
            Some(x) => {
                let ghost v0 = v@;
                let blob = BlobData {
                    magic: CSMAGIC_EMBEDDED_ENTITLEMENTS,
                    payload: clone_bytes(x),
                };
                v.push((CodeSigningSlot::Entitlements, blob));
                proof {
                    assert forall|k: int| 0 <= k < v0.len() implies v@.map_values(g)[k]
                        == v0.map_values(g)[k] by {
                        assert(v@[k] == v0[k]);
                    }
                    lemma_special_blob_push(v0, v@, v@.last(), spec_slot_id(v@.last().0));
                }
            },
            None => {},
        }
        proof {
            assert(v@.map_values(g) =~~= m1 + (match settings.entitlements_xml {
                Some(x) => seq![(5int, CSMAGIC_EMBEDDED_ENTITLEMENTS, x@)],
                None => Seq::<(int, u32, Seq<u8>)>::empty(),
            }));
        }
        let ghost m2 = v@.map_values(g);

        if is_executable {
            match &settings.entitlements_plist {
                Some(d) => {
                    let ghost v0 = v@;
                    proof {
                        lemma_entitlements_der_bounded(d@);
                    }
                    let blob = BlobData {
                        magic: CSMAGIC_EMBEDDED_ENTITLEMENTS_DER,
                        payload: crate::entitlements::encode_entitlements_der(d),
                    };
                    v.push((CodeSigningSlot::EntitlementsDer, blob));
                    proof {
                        assert forall|k: int| 0 <= k < v0.len() implies v@.map_values(g)[k]
                            == v0.map_values(g)[k] by {
                            assert(v@[k] == v0[k]);
                        }
                    }
                },
                None => {},
            }
        }
        proof {
            assert(v@.map_values(g) =~~= m2 + (if is_executable {
                match settings.entitlements_plist {
                    Some(d) => seq![
                        (7int, CSMAGIC_EMBEDDED_ENTITLEMENTS_DER, spec_entitlements_der(d@)),
                    ],
                    None => Seq::<(int, u32, Seq<u8>)>::empty(),
                }
            } else {
                Seq::<(int, u32, Seq<u8>)>::empty()
            }));
        }
        let ghost m3 = v@.map_values(g);

        match &settings.launch_constraints_self {
            Some(b) => {
                let ghost v0 = v@;
                let blob = BlobData {
                    magic: CSMAGIC_EMBEDDED_LAUNCH_CONSTRAINT,
                    payload: clone_bytes(b),
                };
                v.push((CodeSigningSlot::LaunchConstraintsSelf, blob));
                proof {
                    assert forall|k: int| 0 <= k < v0.len() implies v@.map_values(g)[k]
                        == v0.map_values(g)[k] by {
                        assert(v@[k] == v0[k]);
                    }
                    lemma_special_blob_push(v0, v@, v@.last(), spec_slot_id(v@.last().0));
                }
            },
            None => {},
        }
        proof {
            assert(v@.map_values(g) =~~= m3 + (match settings.launch_constraints_self {
                Some(b) => seq![(8int, CSMAGIC_EMBEDDED_LAUNCH_CONSTRAINT, b@)],
                None => Seq::<(int, u32, Seq<u8>)>::empty(),
            }));
        }
        let ghost m4 = v@.map_values(g);

        match &settings.launch_constraints_parent {
            Some(b) => {
                let ghost v0 = v@;
                let blob = BlobData {
                    magic: CSMAGIC_EMBEDDED_LAUNCH_CONSTRAINT,
                    payload: clone_bytes(b),
                };
                v.push((CodeSigningSlot::LaunchConstraintsParent, blob));
                proof {
                    assert forall|k: int| 0 <= k < v0.len() implies v@.map_values(g)[k]
                        == v0.map_values(g)[k] by {
                        assert(v@[k] == v0[k]);
                    }
                    lemma_special_blob_push(v0, v@, v@.last(), spec_slot_id(v@.last().0));
                }
            },
            None => {},
        }
        proof {
            assert(v@.map_values(g) =~~= m4 + (match settings.launch_constraints_parent {
                Some(b) => seq![(9int, CSMAGIC_EMBEDDED_LAUNCH_CONSTRAINT, b@)],
                None => Seq::<(int, u32, Seq<u8>)>::empty(),
            }));
        }
        let ghost m5 = v@.map_values(g);

        match &settings.launch_constraints_responsible {
            Some(b) => {
                let ghost v0 = v@;
                let blob = BlobData {
                    magic: CSMAGIC_EMBEDDED_LAUNCH_CONSTRAINT,
                    payload: clone_bytes(b),
                };
                v.push((CodeSigningSlot::LaunchConstraintsResponsible, blob));
                proof {
                    assert forall|k: int| 0 <= k < v0.len() implies v@.map_values(g)[k]
                        == v0.map_values(g)[k] by {
                        assert(v@[k] == v0[k]);
                    }
                    lemma_special_blob_push(v0, v@, v@.last(), spec_slot_id(v@.last().0));
                }
            },
            None => {},
        }
        proof {
            assert(v@.map_values(g) =~~= m5 + (match settings.launch_constraints_responsible {
                Some(b) => seq![(10int, CSMAGIC_EMBEDDED_LAUNCH_CONSTRAINT, b@)],
                None => Seq::<(int, u32, Seq<u8>)>::empty(),
            }));
        }
        let ghost m6 = v@.map_values(g);

        match &settings.library_constraints {
            Some(b) => {
                let ghost v0 = v@;
                let blob = BlobData {
                    magic: CSMAGIC_EMBEDDED_LAUNCH_CONSTRAINT,
                    payload: clone_bytes(b),
                };
                v.push((CodeSigningSlot::LibraryConstraints, blob));
                proof {
                    assert forall|k: int| 0 <= k < v0.len() implies v@.map_values(g)[k]
                        == v0.map_values(g)[k] by {
                        assert(v@[k] == v0[k]);
                    }
                    lemma_special_blob_push(v0, v@, v@.last(), spec_slot_id(v@.last().0));
                }
            },
            None => {},
        }
        proof {
            assert(v@.map_values(g) =~~= m6 + (match settings.library_constraints {
                Some(b) => seq![(11int, CSMAGIC_EMBEDDED_LAUNCH_CONSTRAINT, b@)],
                None => Seq::<(int, u32, Seq<u8>)>::empty(),
            }));
            assert(v@.map_values(g) =~~= spec_special_blob_list(*settings, is_executable));
            assert(v@.map_values(
                |p: (CodeSigningSlot, BlobData)| (spec_slot_id(p.0), p.1.magic, p.1.payload@),
            ) == v@.map_values(g));
        }
        Ok(v)
    }
}

} // verus!
// Code Directory construction, size estimation, SuperBlob assembly
// and the two-pass orchestration.

verus! {

/// The slot index of a special blob slot, `None` outside the special
/// range.
fn special_slot_id(slot: &CodeSigningSlot) -> (r: Option<u32>)
    ensures
        match r {
            Some(v) => v == spec_slot_id(*slot) && 1 <= v <= 11,
            None => !(1 <= spec_slot_id(*slot) <= 11),
        },
{
    match slot {
        CodeSigningSlot::Info => Some(1),
        CodeSigningSlot::RequirementSet => Some(2),
        CodeSigningSlot::ResourceDir => Some(3),
        CodeSigningSlot::Application => Some(4),
        CodeSigningSlot::Entitlements => Some(5),
        CodeSigningSlot::EntitlementsDer => Some(7),
        CodeSigningSlot::LaunchConstraintsSelf => Some(8),
        CodeSigningSlot::LaunchConstraintsParent => Some(9),
        CodeSigningSlot::LaunchConstraintsResponsible => Some(10),
        CodeSigningSlot::LibraryConstraints => Some(11),
        _ => None,
    }
}

/// Whether a Code Directory can be built at all: the slice is
/// signable, an executable has an executable segment, and an
/// identifier exists.
pub open spec fn spec_cd_buildable(s: SigningSettings, img: MachOImage) -> bool {
    &&& img.spec_signable()
    &&& (img.header.filetype == MH_EXECUTE ==> find_exec_seg_rec(img.segments@, 0) is Some)
    &&& s.identifier is Some
}

/// The runtime version recorded in the Code Directory: the explicit
/// override, else the targeting SDK when the hardened runtime is
/// demanded, else nothing.
pub open spec fn spec_cd_runtime(s: SigningSettings, img: MachOImage) -> Option<u32> {
    match s.runtime_version {
        Some(v) => Some(v),
        None => if spec_cd_flags(s) & CS_RUNTIME != 0 {
            match img.targeting {
                Some(t) => Some(t.sdk_version),
                None => None,
            }
        } else {
            None
        },
    }
}

/// The all-zero digest of a kind.
pub open spec fn spec_zero_digest(kind: DigestKind) -> Seq<u8> {
    Seq::new(spec_hash_len(kind) as nat, |j: int| 0u8)
}

/// The Code Directory built for one slice, as a value: every field is
/// determined by the settings, the parsed image, the slice bytes and
/// the digest kind.
#[verifier::opaque]
pub open spec fn spec_base_cd_view(
    s: SigningSettings,
    img: MachOImage,
    data: Seq<u8>,
    kind: DigestKind,
) -> crate::code_directory::CdView {
    let k = find_linkedit_rec(img.segments@, 0)->Some_0;
    let cl = img.spec_code_limit(k);
    let v0 = crate::code_directory::CdView {
        version: crate::code_directory::CD_VERSION_SCATTER,
        flags: spec_cd_flags(s),
        code_limit: cl as u32,
        code_limit_64: None,
        digest_kind: kind,
        platform: 0,
        page_size_log2: 12,
        ident: match s.identifier {
            Some(i) => i@,
            None => Seq::empty(),
        },
        team: match s.team_name {
            Some(t) => Some(t@),
            None => None,
        },
        specials: match (s.info_plist_data, s.code_resources_data) {
            (None, None) => Seq::empty(),
            (Some(i), None) => seq![digest_of(kind, i@)],
            (None, Some(r)) => seq![
                spec_zero_digest(kind),
                spec_zero_digest(kind),
                digest_of(kind, r@),
            ],
            (Some(i), Some(r)) => seq![
                digest_of(kind, i@),
                spec_zero_digest(kind),
                digest_of(kind, r@),
            ],
        },
        code: Seq::new(
            spec_page_count(cl, 4096) as nat,
            |i: int| digest_of(kind, spec_page_chunk(data, cl, 4096, i)),
        ),
        exec_seg: if img.header.filetype == MH_EXECUTE {
            let e = find_exec_seg_rec(img.segments@, 0)->Some_0;
            Some(
                (
                    img.segments@[e].fileoff,
                    img.segments@[e].filesize,
                    EXEC_SEG_MAIN_BINARY | (match s.entitlements_plist {
                        Some(d) => spec_plist_exec_seg_flags(d@),
                        None => 0u64,
                    }),
                ),
            )
        } else {
            None
        },
        runtime: spec_cd_runtime(s, img),
    };
    crate::code_directory::CdView {
        version: crate::code_directory::spec_cdv_version(v0),
        ..v0
    }
}

impl MachOSigner {
    /// Build the Code Directory for one slice.
    ///
    /// The directory digests every 4096-byte page of
    /// `data[0..code_limit)` with the configured digest, records the
    /// identifier, team, flags, executable-segment and runtime fields,
    /// and carries the Info and CodeResources digests in their special
    /// slots. Succeeds exactly when the slice is signable, an
    /// executable slice has an executable segment, and an identifier
    /// is configured.
    #[verifier::rlimit(100)]
    pub fn create_code_directory_with(
        &self,
        settings: &SigningSettings,
        img: &MachOImage,
        data: &[u8],
        kind: DigestKind,
    ) -> (r: Result<CodeDirectoryBlob, SigningError>)
        requires
            settings.spec_bounded(),
            img.wf(data@),
            data@.len() <= 0xffffffff,
        ensures
            match r {
                Ok(cd) => {
                    let k = find_linkedit_rec(img.segments@, 0)->Some_0;
                    let cl = img.spec_code_limit(k);
                    &&& spec_cd_buildable(*settings, *img)
                    &&& cd@ == spec_base_cd_view(*settings, *img, data@, kind)
                    &&& cd.digest_kind == kind
                    &&& cd.flags == spec_cd_flags(*settings)
                    &&& cd.platform == 0
                    &&& cd.page_size_log2 == 12
                    &&& (match settings.identifier {
                        Some(idv) => cd.ident@ == idv@,
                        None => false,
                    })
                    &&& (match (cd.team_name, settings.team_name) {
                        (Some(a), Some(b)) => a@ == b@,
                        (None, None) => true,
                        _ => false,
                    })
                    &&& cd.code_limit == cl
                    &&& cd.code_limit_64 is None
                    &&& cd.code_digests@.len() == spec_page_count(cl, 4096)
                    &&& (forall|i: int|
                        0 <= i < cd.code_digests@.len() ==> (#[trigger] cd.code_digests@[i])@
                            == digest_of(kind, spec_page_chunk(data@, cl, 4096, i)))
                    &&& cd.exec_seg == (if img.header.filetype == MH_EXECUTE {
                        let e = find_exec_seg_rec(img.segments@, 0)->Some_0;
                        Some(
                            (
                                img.segments@[e].fileoff,
                                img.segments@[e].filesize,
                                EXEC_SEG_MAIN_BINARY | (match settings.entitlements_plist {
                                    Some(d) => spec_plist_exec_seg_flags(d@),
                                    None => 0u64,
                                }),
                            ),
                        )
                    } else {
                        None
                    })
                    &&& cd.runtime == spec_cd_runtime(*settings, *img)
                    &&& cd.version == spec_cd_version(cd)
                    &&& cd.wf()
                    &&& cd.special_digests@.len() == (match (
                        settings.info_plist_data,
                        settings.code_resources_data,
                    ) {
                        (None, None) => 0int,
                        (Some(_), None) => 1int,
                        _ => 3int,
                    })
                    &&& (match settings.info_plist_data {
                        Some(ipd) => cd.special_digests@[0]@ == digest_of(kind, ipd@),
                        None => settings.code_resources_data is Some ==> cd.special_digests@[0]@
                            == spec_zero_digest(kind),
                    })
                    &&& (match settings.code_resources_data {
                        Some(crd) => cd.special_digests@[2]@ == digest_of(kind, crd@)
                            && cd.special_digests@[1]@ == spec_zero_digest(kind),
                        None => true,
                    })
                },
                Err(e) => {
                    &&& !spec_cd_buildable(*settings, *img)
                    &&& (e is MissingLinkedit || e is UnsupportedBinary || e is NoIdentifier)
                    &&& (e is MissingLinkedit <==> find_linkedit_rec(img.segments@, 0) is None)
                    &&& (e is NoIdentifier <==> img.spec_signable() && (img.header.filetype
                        == MH_EXECUTE ==> find_exec_seg_rec(img.segments@, 0) is Some)
                        && settings.identifier is None)
                    &&& (e is UnsupportedBinary <==> (!img.spec_signable()
                        && find_linkedit_rec(img.segments@, 0) is Some) || (img.spec_signable()
                        && img.header.filetype == MH_EXECUTE && find_exec_seg_rec(
                        img.segments@,
                        0,
                    ) is None))
                },
            },
    {
        let (k, code_limit_u64) = match img.code_limit_offset() {
            Ok(v) => v,
            Err(e) => {
                return Err(e);
            },
        };
        let code_limit: usize = code_limit_u64 as usize;
        let flags: u32 = if settings.signing.is_none() {
            (settings.flags | CS_ADHOC) & !CS_LINKER_SIGNED
        } else {
            settings.flags & !CS_ADHOC & !CS_LINKER_SIGNED
        };
        let exec_seg: Option<(u64, u64, u64)> = if img.is_executable() {
            let (base, limit) = match img.executable_segment_boundary() {
                Ok(v) => v,
                Err(e) => {
                    return Err(e);
                },
            };
            let pf: u64 = match &settings.entitlements_plist {
                Some(d) => plist_to_executable_segment_flags(d),
                None => 0,
            };
            Some((base, limit, EXEC_SEG_MAIN_BINARY | pf))
        } else {
            None
        };
        let runtime: Option<u32> = match settings.runtime_version {
            Some(v) => Some(v),
            None => {
                if flags & CS_RUNTIME != 0 {
                    match img.targeting {
                        Some(t) => Some(t.sdk_version),
                        None => None,
                    }
                } else {
                    None
                }
            },
        };
        let ident: Vec<u8> = match &settings.identifier {
            Some(v) => clone_bytes(v),
            None => {
                return Err(SigningError::NoIdentifier);
            },
        };
        let team_name: Option<Vec<u8>> = match &settings.team_name {
            Some(v) => Some(clone_bytes(v)),
            None => None,
        };
        let code_digests = compute_code_digests(data, code_limit, kind, 4096);
        proof {
            assert(spec_page_count(code_limit as int, 4096) <= 0x100000) by (nonlinear_arith)
                requires
                    0 <= code_limit <= 0xffffffff,
            ;
        }
        let mut cd = CodeDirectoryBlob {
            version: crate::code_directory::CD_VERSION_SCATTER,
            flags,
            code_limit: code_limit as u32,
            code_limit_64: None,
            digest_kind: kind,
            platform: 0,
            page_size_log2: 12,
            ident,
            team_name,
            special_digests: Vec::new(),
            code_digests,
            exec_seg,
            runtime,
        };
        match &settings.info_plist_data {
            Some(d) => {
                let dig = kind.digest_data(d.as_slice());
                cd.set_slot_digest(1, dig);
            },
            None => {},
        }
        match &settings.code_resources_data {
            Some(d) => {
                let dig = kind.digest_data(d.as_slice());
                cd.set_slot_digest(3, dig);
            },
            None => {},
        }
        cd.adjust_version();
        cd.clear_newer_fields();
        proof {
            reveal(spec_base_cd_view);
            assert(cd.version == spec_cd_version(cd));
            let bv = spec_base_cd_view(*settings, *img, data@, kind);
            assert(cd@.code =~~= bv.code);
            assert(cd@.specials =~~= bv.specials);
            assert(cd@.ident == bv.ident);
            assert(cd@.team == bv.team);
            assert(cd@.exec_seg == bv.exec_seg);
            assert(cd@.runtime == bv.runtime);
            assert(cd@.flags == bv.flags);
            assert(cd@.code_limit == bv.code_limit);
            assert(cd@.version == bv.version);
            assert(cd@ =~~= bv);
        }
        Ok(cd)
    }

    /// Build the Code Directory for one slice with the configured
    /// primary digest. The result is exactly
    /// [`spec_base_cd_view`] for these settings; it succeeds exactly
    /// when the slice is signable, an executable slice has an
    /// executable segment, and an identifier is configured.
    pub fn create_code_directory(
        &self,
        settings: &SigningSettings,
        img: &MachOImage,
        data: &[u8],
    ) -> (r: Result<CodeDirectoryBlob, SigningError>)
        requires
            settings.spec_bounded(),
            img.wf(data@),
            data@.len() <= 0xffffffff,
        ensures
            match r {
                Ok(cd) => {
                    &&& spec_cd_buildable(*settings, *img)
                    &&& cd@ == spec_base_cd_view(*settings, *img, data@, settings.digest_type)
                    &&& cd.version == spec_cd_version(cd)
                    &&& cd.wf()
                },
                Err(e) => {
                    &&& !spec_cd_buildable(*settings, *img)
                    &&& (e is MissingLinkedit || e is UnsupportedBinary || e is NoIdentifier)
                    &&& (e is MissingLinkedit <==> find_linkedit_rec(img.segments@, 0) is None)
                    &&& (e is NoIdentifier <==> img.spec_signable() && (img.header.filetype
                        == MH_EXECUTE ==> find_exec_seg_rec(img.segments@, 0) is Some)
                        && settings.identifier is None)
                    &&& (e is UnsupportedBinary <==> (!img.spec_signable()
                        && find_linkedit_rec(img.segments@, 0) is Some) || (img.spec_signable()
                        && img.header.filetype == MH_EXECUTE && find_exec_seg_rec(
                        img.segments@,
                        0,
                    ) is None))
                },
            },
    {
        self.create_code_directory_with(settings, img, data, settings.digest_type)
    }
}

/// Sum of the certificate chain's DER lengths.
pub open spec fn spec_chain_size(chain: Seq<Vec<u8>>, n: int) -> int
    decreases n,
{
    if n <= 0 {
        0
    } else {
        spec_chain_size(chain, n - 1) + chain[n - 1]@.len()
    }
}

/// Sum of the page-digest table sizes of the extra digests.
pub open spec fn spec_extra_digests_size(extras: Seq<DigestKind>, cl: int, n: int) -> int
    decreases n,
{
    if n <= 0 {
        0
    } else {
        spec_extra_digests_size(extras, cl, n - 1) + spec_page_count(cl, 4096) * spec_hash_len(
            extras[n - 1],
        )
    }
}

/// The deliberately conservative reservation for an embedded
/// signature: 1 KiB per Code Directory, the digest tables, the
/// serialized special blobs, 4 KiB for the CMS structure, the chain,
/// 8 KiB for a timestamp token, rounded up to 1 KiB.
pub open spec fn spec_estimate_size(s: SigningSettings, cl: int) -> int {
    let list = spec_special_blob_list(s, true);
    let base = 1024 * (1 + s.extra_digests@.len()) + spec_page_count(cl, 4096) * spec_hash_len(
        s.digest_type,
    ) + spec_extra_digests_size(s.extra_digests@, cl, s.extra_digests@.len() as int)
        + spec_blob_list_size(list, list.len() as int) + 4096 + (match s.signing {
        Some(id) => spec_chain_size(id.chain_der@, id.chain_der@.len() as int),
        None => 0int,
    }) + (if s.time_stamp_url is Some {
        8192int
    } else {
        0int
    });
    base + 1024 - base % 1024
}

} // verus!
// Size estimation and SuperBlob assembly.

verus! {

impl MachOSigner {
    /// Estimate the embedded signature size for one slice, per
    /// [`spec_estimate_size`]. The overflow branch of the signing loop
    /// is unreachable as long as this stays conservative.
    #[verifier::rlimit(100)]
    pub fn estimate_embedded_signature_size(
        &self,
        img: &MachOImage,
        settings: &SigningSettings,
    ) -> (r: Result<usize, SigningError>)
        requires
            settings.spec_bounded(),
            img.data_len <= 0xffffffff,
        ensures
            match r {
                Ok(size) => {
                    let k = find_linkedit_rec(img.segments@, 0)->Some_0;
                    let cl = img.spec_code_limit(k);
                    &&& img.spec_signable()
                    &&& !(settings.designated_requirement is Auto && settings.signing is Some
                        && settings.identifier is None)
                    &&& size == spec_estimate_size(*settings, cl)
                    &&& size <= 0x20000000
                },
                Err(e) => {
                    &&& (e is MissingLinkedit || e is UnsupportedBinary || e is NoIdentifier)
                    &&& ((e is MissingLinkedit || e is UnsupportedBinary) <==> !img.spec_signable())
                    &&& (e is NoIdentifier ==> settings.designated_requirement is Auto
                        && settings.signing is Some && settings.identifier is None)
                },
            },
    {
        let (k, code_limit_u64) = match img.code_limit_offset() {
            Ok(v) => v,
            Err(e) => {
                return Err(e);
            },
        };
        let ghost cl = code_limit_u64 as int;
        let pages64: u64 = (code_limit_u64 + 4095) / 4096;
        proof {
            assert(pages64 <= 0x100000) by (nonlinear_arith)
                requires
                    pages64 == (code_limit_u64 + 4095) as int / 4096,
                    0 <= code_limit_u64 <= 0xffffffff,
            ;
        }
        let pages: usize = pages64 as usize;
        proof {
            assert(pages == spec_page_count(cl, 4096));
        }
        let ne: usize = settings.extra_digests.len();
        let mut size: usize = 1024 * (1 + ne);
        proof {
            assert(pages * spec_hash_len(settings.digest_type) <= 0x4000000) by (nonlinear_arith)
                requires
                    0 <= pages <= 0x100000,
                    0 <= spec_hash_len(settings.digest_type) <= 64,
            ;
        }
        size = size + pages * settings.digest_type.hash_len();

        let mut i: usize = 0;
        while i < ne
            invariant
                ne == settings.extra_digests@.len(),
                ne <= 4,
                i <= ne,
                pages == spec_page_count(cl, 4096),
                pages <= 0x100000,
                size == 1024 * (1 + ne) + pages * spec_hash_len(settings.digest_type)
                    + spec_extra_digests_size(settings.extra_digests@, cl, i as int),
                size <= 0x2000 + (1 + i) * 0x4000000,
            decreases ne - i,
        {
            proof {
                assert(pages * spec_hash_len(settings.digest_type) <= 0x100000 * 64) by (nonlinear_arith)
                    requires
                        0 <= pages <= 0x100000,
                        spec_hash_len(settings.digest_type) <= 64,
                        spec_hash_len(settings.digest_type) >= 0,
                ;
                assert(pages * spec_hash_len(settings.extra_digests@[i as int]) <= 0x100000 * 64)
                    by (nonlinear_arith)
                    requires
                        0 <= pages <= 0x100000,
                        spec_hash_len(settings.extra_digests@[i as int]) <= 64,
                        spec_hash_len(settings.extra_digests@[i as int]) >= 0,
                ;
            }
            size = size + pages * settings.extra_digests[i].hash_len();
            i = i + 1;
        }
        proof {
            assert(pages * spec_hash_len(settings.digest_type) <= 0x100000 * 64) by (nonlinear_arith)
                requires
                    0 <= pages <= 0x100000,
                    spec_hash_len(settings.digest_type) <= 64,
                    spec_hash_len(settings.digest_type) >= 0,
            ;
        }

        let blobs = match self.create_special_blobs(settings, true) {
            Ok(v) => v,
            Err(e) => {
                return Err(e);
            },
        };
        let ghost list = spec_special_blob_list(*settings, true);
        let ghost gmap = |p: (CodeSigningSlot, BlobData)| (spec_slot_id(p.0), p.1.magic, p.1.payload@);
        let nb = blobs.len();
        proof {
            assert(blobs@.map_values(gmap) == list);
            assert(nb == list.len());
            assert(nb <= 7);
            assert forall|j: int| 0 <= j < list.len() implies (#[trigger] list[j]).2.len()
                <= 0x1000010 by {
                assert(blobs@.map_values(gmap)[j] == list[j]);
                assert(blobs@[j].1.payload@.len() <= 0x1000010);
            }
        }
        let mut i: usize = 0;
        while i < nb
            invariant
                nb == blobs@.len(),
                nb <= 7,
                i <= nb,
                blobs@.map_values(
                    |p: (CodeSigningSlot, BlobData)| (spec_slot_id(p.0), p.1.magic, p.1.payload@),
                ) == list,
                forall|j: int| 0 <= j < list.len() ==> (#[trigger] list[j]).2.len() <= 0x1000010,
                size <= 0x16000000 + i * 0x1000020,
                size == 1024 * (1 + settings.extra_digests@.len()) + spec_page_count(cl, 4096)
                    * spec_hash_len(settings.digest_type) + spec_extra_digests_size(
                    settings.extra_digests@,
                    cl,
                    settings.extra_digests@.len() as int,
                ) + spec_blob_list_size(list, i as int),
            decreases nb - i,
        {
            proof {
                assert(blobs@.map_values(
                    |p: (CodeSigningSlot, BlobData)| (spec_slot_id(p.0), p.1.magic, p.1.payload@),
                )[i as int] == list[i as int]);
            }
            size = size + blobs[i].1.payload.len() + 8;
            i = i + 1;
        }
        size = size + 4096;
        match &settings.signing {
            Some(id) => {
                let nc = id.chain_der.len();
                let mut j: usize = 0;
                let ghost size0 = size as int;
                while j < nc
                    invariant
                        nc == id.chain_der@.len(),
                        nc <= 0x40,
                        j <= nc,
                        forall|t: int|
                            0 <= t < nc ==> (#[trigger] id.chain_der@[t])@.len() <= 0x10000,
                        size == size0 + spec_chain_size(id.chain_der@, j as int),
                        size0 <= 0x1e000000,
                        size <= size0 + j * 0x10000,
                    decreases nc - j,
                {
                    size = size + id.chain_der[j].len();
                    j = j + 1;
                }
            },
            None => {},
        }
        if settings.time_stamp_url.is_some() {
            size = size + 8192;
        }
        size = size + 1024 - size % 1024;
        Ok(size)
    }
}

/// The DER entitlements payload is small when the dictionary is
/// bounded.
pub proof fn lemma_entitlements_der_bounded(ents: Seq<(Vec<u8>, crate::entitlements::EntitlementValue)>)
    requires
        crate::entitlements::spec_ents_bounded(ents),
    ensures
        spec_entitlements_der(ents).len() <= 0x100000,
{
    lemma_der_entries_bounded(ents, ents.len() as int);
}

/// Entry-list length bound for the DER encoding.
proof fn lemma_der_entries_bounded(
    ents: Seq<(Vec<u8>, crate::entitlements::EntitlementValue)>,
    n: int,
)
    requires
        crate::entitlements::spec_ents_bounded(ents),
        0 <= n <= ents.len(),
    ensures
        crate::entitlements::spec_der_entries(ents, n).len() <= n * 0x200,
    decreases n,
{
    if n > 0 {
        lemma_der_entries_bounded(ents, n - 1);
        assert((n - 1) * 0x200 + 0x200 == n * 0x200) by (nonlinear_arith);
    }
}

} // verus!
// SuperBlob assembly.

verus! {

/// Combined identifier and team length.
pub open spec fn spec_ident_team_len(s: SigningSettings) -> int {
    (match s.identifier {
        Some(v) => v@.len() as int,
        None => 0int,
    }) + (match s.team_name {
        Some(v) => v@.len() as int,
        None => 0int,
    })
}

/// Identifier and team short enough that 1 KiB per Code Directory
/// surely covers everything but the page digests.
pub open spec fn spec_estimate_margin(s: SigningSettings) -> bool {
    spec_ident_team_len(s) <= 64
}

/// Record a digest at special slot `slot`, zero-filling slots opened
/// in between.
pub open spec fn spec_set_slot(
    specials: Seq<Seq<u8>>,
    slot: int,
    dig: Seq<u8>,
    kind: DigestKind,
) -> Seq<Seq<u8>> {
    let grown = if specials.len() >= slot {
        specials
    } else {
        specials + Seq::new((slot - specials.len()) as nat, |i: int| spec_zero_digest(kind))
    };
    grown.update(slot - 1, dig)
}

/// The view with the digests of the first `n` serialized blobs
/// recorded in their special slots.
pub open spec fn spec_fill_slots(
    v: crate::code_directory::CdView,
    pairs: Seq<(u32, Seq<u8>)>,
    n: int,
) -> crate::code_directory::CdView
    decreases n,
{
    if n <= 0 {
        v
    } else {
        let prev = spec_fill_slots(v, pairs, n - 1);
        crate::code_directory::CdView {
            specials: spec_set_slot(
                prev.specials,
                pairs[n - 1].0 as int,
                digest_of(v.digest_kind, pairs[n - 1].1),
                v.digest_kind,
            ),
            ..prev
        }
    }
}

/// The serialized Code Directory of one slice, blob digests included.
#[verifier::opaque]
pub open spec fn spec_full_cd_bytes(
    s: SigningSettings,
    img: MachOImage,
    data: Seq<u8>,
    kind: DigestKind,
    pairs: Seq<(u32, Seq<u8>)>,
) -> Seq<u8> {
    crate::code_directory::spec_cdv_bytes(
        spec_fill_slots(spec_base_cd_view(s, img, data, kind), pairs, pairs.len() as int),
    )
}

impl MachOSigner {
    /// Build one Code Directory, fill the special-slot digests from
    /// the serialized blobs, and serialize it: the bytes are exactly
    /// [`spec_full_cd_bytes`].
    #[verifier::rlimit(100)]
    fn build_code_directory_bytes(
        &self,
        settings: &SigningSettings,
        img: &MachOImage,
        data: &[u8],
        kind: DigestKind,
        blob_bytes: &Vec<(u32, Vec<u8>)>,
    ) -> (r: Result<Vec<u8>, SigningError>)
        requires
            settings.spec_bounded(),
            img.wf(data@),
            data@.len() <= 0xffffffff,
            forall|j: int|
                2 <= (#[trigger] blob_bytes@[j]).0 <= 11 || !(0 <= j < blob_bytes@.len()),
            blob_bytes@.len() <= 11,
        ensures
            match r {
                Ok(bytes) => {
                    let k = find_linkedit_rec(img.segments@, 0)->Some_0;
                    let cl = img.spec_code_limit(k);
                    &&& spec_cd_buildable(*settings, *img)
                    &&& bytes@ == spec_full_cd_bytes(
                        *settings,
                        *img,
                        data@,
                        kind,
                        blob_bytes@.map_values(|p: (u32, Vec<u8>)| (p.0, p.1@)),
                    )
                    &&& bytes@.len() <= 96 + (match settings.identifier {
                        Some(v) => v@.len() as int,
                        None => 0int,
                    }) + 1 + (match settings.team_name {
                        Some(v) => v@.len() as int,
                        None => 0int,
                    }) + 1 + 11 * 64 + spec_page_count(cl, 4096) * spec_hash_len(kind)
                    &&& bytes@.len() <= 0xffffff00
                },
                Err(e) => {
                    &&& !spec_cd_buildable(*settings, *img)
                    &&& (e is MissingLinkedit || e is UnsupportedBinary || e is NoIdentifier)
                },
            },
    {
        let mut cd = match self.create_code_directory_with(settings, img, data, kind) {
            Ok(v) => v,
            Err(e) => {
                return Err(e);
            },
        };
        let ghost k0 = find_linkedit_rec(img.segments@, 0)->Some_0;
        let ghost cl = img.spec_code_limit(k0);
        let ghost base = spec_base_cd_view(*settings, *img, data@, kind);
        let ghost pairs = blob_bytes@.map_values(|p: (u32, Vec<u8>)| (p.0, p.1@));
        let n = blob_bytes.len();
        let mut i: usize = 0;
        while i < n
            invariant
                n == blob_bytes@.len(),
                n <= 11,
                i <= n,
                forall|j: int|
                    2 <= (#[trigger] blob_bytes@[j]).0 <= 11 || !(0 <= j < blob_bytes@.len()),
                pairs == blob_bytes@.map_values(|p: (u32, Vec<u8>)| (p.0, p.1@)),
                base == spec_base_cd_view(*settings, *img, data@, kind),
                base.digest_kind == kind,
                cd@ == spec_fill_slots(base, pairs, i as int),
                cd.wf(),
                cd.digest_kind == kind,
                settings.spec_bounded(),
                cd.special_digests@.len() <= 11,
                cd.ident@.len() <= 0xff,
                match (cd.team_name, settings.team_name) {
                    (Some(a), Some(b)) => a@ == b@,
                    (None, None) => true,
                    _ => false,
                },
                match settings.identifier {
                    Some(v) => cd.ident@ == v@,
                    None => false,
                },
                cd.code_digests@.len() == spec_page_count(cl, 4096),
            decreases n - i,
        {
            let ghost prev = cd@;
            let dig = kind.digest_data(blob_bytes[i].1.as_slice());
            let slot = blob_bytes[i].0 as usize;
            cd.set_slot_digest(slot, dig);
            proof {
                assert(pairs[i as int] == (blob_bytes@[i as int].0, blob_bytes@[i as int].1@));
                assert(cd@.specials =~~= spec_set_slot(
                    prev.specials,
                    slot as int,
                    digest_of(kind, pairs[i as int].1),
                    kind,
                ));
                assert(cd@ =~~= spec_fill_slots(base, pairs, i + 1));
            }
            i = i + 1;
        }
        let ghost filled = cd@;
        cd.adjust_version();
        cd.clear_newer_fields();
        proof {
            assert(spec_cdv_version(filled) == filled.version) by {
                assert(filled == spec_fill_slots(base, pairs, n as int));
                lemma_fill_slots_fixed_fields(base, pairs, n as int);
            }
            assert(cd@ =~~= filled);
            assert(spec_page_count(cl, 4096) <= 0x100000) by (nonlinear_arith)
                requires
                    0 <= cl <= 0xffffffff,
            ;
        }
        let bytes = cd.serialize();
        proof {
            reveal(spec_full_cd_bytes);
        }
        Ok(bytes)
    }
}

/// Filling slots changes only the special digests.
pub proof fn lemma_fill_slots_fixed_fields(
    v: crate::code_directory::CdView,
    pairs: Seq<(u32, Seq<u8>)>,
    n: int,
)
    ensures
        ({
            let f = spec_fill_slots(v, pairs, n);
            &&& f.version == v.version
            &&& f.flags == v.flags
            &&& f.code_limit == v.code_limit
            &&& f.code_limit_64 == v.code_limit_64
            &&& f.digest_kind == v.digest_kind
            &&& f.ident == v.ident
            &&& f.team == v.team
            &&& f.code == v.code
            &&& f.exec_seg == v.exec_seg
            &&& f.runtime == v.runtime
        }),
    decreases n,
{
    if n > 0 {
        lemma_fill_slots_fixed_fields(v, pairs, n - 1);
    }
}

} // verus!
// SuperBlob assembly and orchestration.

verus! {

/// The serialized special blobs with their slot ids.
pub open spec fn spec_special_blob_pairs(s: SigningSettings, is_exec: bool) -> Seq<(u32, Seq<u8>)> {
    spec_special_blob_list(s, is_exec).map_values(
        |t: (int, u32, Seq<u8>)| (t.0 as u32, spec_blob_bytes(t.1, t.2)),
    )
}

/// The canonical SuperBlob entry list of one slice: the primary Code
/// Directory, the serialized special blobs, one alternate directory
/// per extra digest, and the Signature wrapper around the CMS bytes
/// (empty for ad-hoc).
#[verifier::opaque]
pub open spec fn spec_superblob_entry_list(
    s: SigningSettings,
    img: MachOImage,
    data: Seq<u8>,
    cms: Option<Seq<u8>>,
) -> Seq<(u32, Seq<u8>)> {
    let pairs = spec_special_blob_pairs(s, img.header.filetype == MH_EXECUTE);
    seq![(0u32, spec_full_cd_bytes(s, img, data, s.digest_type, pairs))] + pairs + Seq::new(
        s.extra_digests@.len(),
        |i: int|
            (
                (0x1000 + i) as u32,
                spec_full_cd_bytes(s, img, data, s.extra_digests@[i], pairs),
            ),
    ) + seq![
        (
            0x10000u32,
            spec_blob_bytes(
                CSMAGIC_BLOBWRAPPER,
                match cms {
                    Some(c) => c,
                    None => Seq::empty(),
                },
            ),
        ),
    ]
}

impl MachOSigner {
    /// Build the SuperBlob for one slice: the special blobs, the
    /// primary and alternative Code Directories with the special-slot
    /// digests filled in, and the CMS Signature (empty for ad-hoc).
    ///
    /// For ad-hoc settings within [`spec_estimate_margin`], the result
    /// provably fits the reservation of
    /// [`MachOSigner::estimate_embedded_signature_size`].
    #[verifier::rlimit(100)]
    pub fn create_superblob<C: CmsSigner>(
        &self,
        settings: &SigningSettings,
        img: &MachOImage,
        data: &[u8],
        cms: &mut C,
    ) -> (r: Result<Vec<u8>, SigningError>)
        requires
            settings.spec_bounded(),
            img.wf(data@),
            data@.len() <= 0xffffffff,
        ensures
            match r {
                Ok(out) => {
                    let k = find_linkedit_rec(img.segments@, 0)->Some_0;
                    let cl = img.spec_code_limit(k);
                    &&& spec_cd_buildable(*settings, *img)
                    &&& out@.len() >= 20
                    &&& (settings.signing is None ==> out@ == crate::superblob::spec_superblob_bytes(
                        spec_superblob_entry_list(*settings, *img, data@, None),
                    ))
                    &&& (settings.signing is Some ==> exists|c: Seq<u8>|
                        out@ == crate::superblob::spec_superblob_bytes(
                            #[trigger] spec_superblob_entry_list(*settings, *img, data@, Some(c)),
                        ))
                    &&& (settings.signing is None && spec_estimate_margin(*settings)
                        && img.header.filetype == MH_EXECUTE ==> out@.len()
                        <= spec_estimate_size(*settings, cl))
                },
                Err(e) => {
                    e is MissingLinkedit || e is UnsupportedBinary || e is NoIdentifier
                        || e is Cms || e is MachOWrite
                },
            },
            spec_cd_buildable(*settings, *img) && settings.signing is None ==> r is Ok,
    {
        let is_exec = img.is_executable();
        let blobs = match self.create_special_blobs(settings, is_exec) {
            Ok(v) => v,
            Err(e) => {
                return Err(e);
            },
        };
        let ghost list = spec_special_blob_list(*settings, is_exec);
        let nb = blobs.len();
        proof {
            assert(blobs@.map_values(
                |p: (CodeSigningSlot, BlobData)| (spec_slot_id(p.0), p.1.magic, p.1.payload@),
            ) == list);
            assert(list.len() <= 7);
        }

        // Serialize the special blobs; slots must be ascending within
        // the Code Directory special range.
        let mut blob_bytes: Vec<(u32, Vec<u8>)> = Vec::new();
        let mut i: usize = 0;
        while i < nb
            invariant
                nb == blobs@.len(),
                nb <= 7,
                i <= nb,
                blobs@.map_values(
                    |p: (CodeSigningSlot, BlobData)| (spec_slot_id(p.0), p.1.magic, p.1.payload@),
                ) == list,
                forall|j: int|
                    0 <= j < blobs@.len() ==> (#[trigger] blobs@[j]).1.payload@.len() <= 0x1000010,
                forall|j: int|
                    0 <= j < blobs@.len() ==> 2 <= spec_slot_id((#[trigger] blobs@[j]).0) <= 11,
                forall|j: int|
                    1 <= j < blobs@.len() ==> spec_slot_id((#[trigger] blobs@[j]).0)
                        > spec_slot_id(blobs@[j - 1].0),
                blob_bytes@.len() == i,
                forall|j: int|
                    0 <= j < i ==> 2 <= (#[trigger] blob_bytes@[j]).0 <= 11,
                forall|j: int|
                    0 <= j < i ==> (#[trigger] blob_bytes@[j]).0 == list[j].0 as u32,
                forall|j: int|
                    0 <= j < i ==> (#[trigger] blob_bytes@[j]).1@ == spec_blob_bytes(
                        list[j].1,
                        list[j].2,
                    ),
                forall|j: int|
                    0 <= j < i ==> (#[trigger] blob_bytes@[j]).1@.len() == list[j].2.len() + 8,
                forall|j: int|
                    1 <= j < i ==> (#[trigger] blob_bytes@[j]).0 > blob_bytes@[j - 1].0,
            decreases nb - i,
        {
            proof {
                assert(blobs@.map_values(
                    |p: (CodeSigningSlot, BlobData)| (spec_slot_id(p.0), p.1.magic, p.1.payload@),
                )[i as int] == list[i as int]);
                if 1 <= i {
                    assert(blobs@.map_values(
                        |p: (CodeSigningSlot, BlobData)| (
                            spec_slot_id(p.0),
                            p.1.magic,
                            p.1.payload@,
                        ),
                    )[i - 1] == list[i - 1]);
                    assert(list[i - 1].0 == spec_slot_id(blobs@[i - 1].0));
                }
                assert(list[i as int].0 == spec_slot_id(blobs@[i as int].0));
            }
            let slot_id = match special_slot_id(&blobs[i].0) {
                Some(v) => v,
                None => {
                    return Err(SigningError::UnsupportedBinary);
                },
            };
            if !(2 <= slot_id && slot_id <= 11) {
                return Err(SigningError::UnsupportedBinary);
            }
            if blob_bytes.len() > 0 {
                if slot_id <= blob_bytes[blob_bytes.len() - 1].0 {
                    return Err(SigningError::UnsupportedBinary);
                }
            }
            let bytes = blobs[i].1.to_blob_bytes();
            blob_bytes.push((slot_id, bytes));
            i = i + 1;
        }

        let cd_bytes = match self.build_code_directory_bytes(
            settings,
            img,
            data,
            settings.digest_type,
            &blob_bytes,
        ) {
            Ok(v) => v,
            Err(e) => {
                return Err(e);
            },
        };
        let ghost k0 = find_linkedit_rec(img.segments@, 0)->Some_0;
        let ghost cl = img.spec_code_limit(k0);
        let ghost it = spec_ident_team_len(*settings);

        let mut builder = EmbeddedSignatureBuilder::new();
        builder.add_code_directory(clone_bytes(&cd_bytes));

        let mut i: usize = 0;
        while i < nb
            invariant
                nb == blob_bytes@.len(),
                nb == list.len(),
                nb <= 7,
                i <= nb,
                forall|j: int| 0 <= j < list.len() ==> (#[trigger] list[j]).2.len() <= 0x1000010,
                forall|j: int|
                    0 <= j < nb ==> 2 <= (#[trigger] blob_bytes@[j]).0 <= 11,
                forall|j: int|
                    0 <= j < nb ==> (#[trigger] blob_bytes@[j]).1@.len() == list[j].2.len() + 8,
                forall|j: int|
                    1 <= j < nb ==> (#[trigger] blob_bytes@[j]).0 > blob_bytes@[j - 1].0,
                forall|j: int|
                    0 <= j < nb ==> (#[trigger] blob_bytes@[j]).0 == list[j].0 as u32,
                forall|j: int|
                    0 <= j < nb ==> (#[trigger] blob_bytes@[j]).1@ == spec_blob_bytes(
                        list[j].1,
                        list[j].2,
                    ),
                builder.specials@.len() == i,
                forall|j: int|
                    0 <= j < i ==> (#[trigger] builder.specials@[j]).1@.len() == list[j].2.len()
                        + 8,
                forall|j: int|
                    0 <= j < i ==> (#[trigger] builder.specials@[j]).0 == list[j].0 as u32,
                forall|j: int|
                    0 <= j < i ==> (#[trigger] builder.specials@[j]).1@ == spec_blob_bytes(
                        list[j].1,
                        list[j].2,
                    ),
                i > 0 ==> builder.specials@.last().0 == blob_bytes@[i - 1].0,
                builder.code_directory matches Some(cdb) && cdb@ == cd_bytes@,
                builder.alternates@.len() == 0,
                builder.signature is None,
                cd_bytes@ == spec_full_cd_bytes(
                    *settings,
                    *img,
                    data@,
                    settings.digest_type,
                    blob_bytes@.map_values(|p: (u32, Vec<u8>)| (p.0, p.1@)),
                ),
                cd_bytes@.len() <= 802 + it + spec_page_count(cl, 4096) * spec_hash_len(
                    settings.digest_type,
                ),
                cd_bytes@.len() <= 0xffffff00,
                it == spec_ident_team_len(*settings),
            decreases nb - i,
        {
            let slot_id = blob_bytes[i].0;
            let bytes = clone_bytes(&blob_bytes[i].1);
            match builder.add_blob(slot_id, bytes) {
                Ok(_) => {},
                Err(e) => {
                    return Err(e);
                },
            }
            i = i + 1;
        }

        // Alternative Code Directories for the extra digests.
        let ne = settings.extra_digests.len();
        let mut i: usize = 0;
        while i < ne
            invariant
                ne == settings.extra_digests@.len(),
                ne <= 4,
                i <= ne,
                settings.spec_bounded(),
                img.wf(data@),
                data@.len() <= 0xffffffff,
                spec_cd_buildable(*settings, *img),
                cl == img.spec_code_limit(find_linkedit_rec(img.segments@, 0)->Some_0),
                0 <= cl <= 0xffffffff,
                nb == blob_bytes@.len(),
                nb <= 7,
                forall|j: int|
                    0 <= j < nb ==> 2 <= (#[trigger] blob_bytes@[j]).0 <= 11,
                builder.specials@.len() == nb,
                forall|j: int|
                    0 <= j < nb ==> (#[trigger] builder.specials@[j]).1@.len() == list[j].2.len()
                        + 8,
                forall|j: int|
                    0 <= j < nb ==> (#[trigger] builder.specials@[j]).0 == list[j].0 as u32,
                forall|j: int|
                    0 <= j < nb ==> (#[trigger] builder.specials@[j]).1@ == spec_blob_bytes(
                        list[j].1,
                        list[j].2,
                    ),
                forall|j: int|
                    0 <= j < nb ==> (#[trigger] blob_bytes@[j]).0 == list[j].0 as u32,
                forall|j: int|
                    0 <= j < nb ==> (#[trigger] blob_bytes@[j]).1@ == spec_blob_bytes(
                        list[j].1,
                        list[j].2,
                    ),
                builder.code_directory matches Some(cdb) && cdb@ == cd_bytes@,
                builder.signature is None,
                builder.alternates@.len() == i,
                cd_bytes@ == spec_full_cd_bytes(
                    *settings,
                    *img,
                    data@,
                    settings.digest_type,
                    blob_bytes@.map_values(|p: (u32, Vec<u8>)| (p.0, p.1@)),
                ),
                forall|j: int|
                    0 <= j < i ==> (#[trigger] builder.alternates@[j])@ == spec_full_cd_bytes(
                        *settings,
                        *img,
                        data@,
                        settings.extra_digests@[j],
                        blob_bytes@.map_values(|p: (u32, Vec<u8>)| (p.0, p.1@)),
                    ),
                img.header.filetype == MH_EXECUTE <==> is_exec,
                it == spec_ident_team_len(*settings),
                nb == list.len(),
                forall|j: int| 0 <= j < list.len() ==> (#[trigger] list[j]).2.len() <= 0x1000010,
                cd_bytes@.len() <= 802 + it + spec_page_count(cl, 4096) * spec_hash_len(
                    settings.digest_type,
                ),
                cd_bytes@.len() <= 0xffffff00,
                forall|j: int|
                    0 <= j < i ==> (#[trigger] builder.alternates@[j])@.len() <= 802 + it
                        + spec_page_count(cl, 4096) * spec_hash_len(settings.extra_digests@[j]),
                forall|j: int|
                    0 <= j < i ==> (#[trigger] builder.alternates@[j])@.len() <= 0xffffff00,
            decreases ne - i,
        {
            let alt_bytes = match self.build_code_directory_bytes(
                settings,
                img,
                data,
                settings.extra_digests[i],
                &blob_bytes,
            ) {
                Ok(v) => v,
                Err(e) => {
                    return Err(e);
                },
            };
            builder.add_alternative_code_directory(alt_bytes);
            i = i + 1;
        }

        // The Signature slot: CMS over the primary Code Directory, or
        // the empty wrapper for ad-hoc.
        let ghost mut cms_payload: Option<Seq<u8>> = None;
        if settings.signing.is_some() {
            let sig = match cms.create_signature(&cd_bytes) {
                Ok(v) => v,
                Err(_) => {
                    return Err(SigningError::Cms(String::new()));
                },
            };
            if sig.len() > 0x1000000 {
                return Err(SigningError::Cms(String::new()));
            }
            proof {
                cms_payload = Some(sig@);
            }
            builder.create_cms_signature(sig);
        } else {
            builder.create_empty_cms_signature();
        }

        proof {
            assert(it <= 0x1fe);
            assert(blob_bytes@.map_values(|p: (u32, Vec<u8>)| (p.0, p.1@))
                =~~= spec_special_blob_pairs(*settings, is_exec));
            lemma_assembled_builder(builder, *settings, *img, data@, cms_payload, cl, is_exec);
        }
        let out = builder.create_superblob();
        proof {
            if settings.signing is Some {
                let c = cms_payload->Some_0;
                assert(out@ == crate::superblob::spec_superblob_bytes(
                    spec_superblob_entry_list(*settings, *img, data@, Some(c)),
                ));
            }
        }
        Ok(out)
    }
}

/// The builder's special bodies have exactly the serialized blob
/// sizes.
proof fn lemma_pairs_vs_list(
    specials: Seq<(u32, Vec<u8>)>,
    list: Seq<(int, u32, Seq<u8>)>,
    n: int,
)
    requires
        0 <= n <= specials.len(),
        n <= list.len(),
        forall|j: int| 0 <= j < n ==> (#[trigger] specials[j]).1@.len() == list[j].2.len() + 8,
    ensures
        crate::superblob::spec_pairs_bodies_len(specials, n) == spec_blob_list_size(list, n),
    decreases n,
{
    if n > 0 {
        lemma_pairs_vs_list(specials, list, n - 1);
    }
}

/// Each special blob body is small, so their sum is.
proof fn lemma_blob_list_size_bound(list: Seq<(int, u32, Seq<u8>)>, n: int)
    requires
        0 <= n <= list.len(),
        forall|j: int| 0 <= j < list.len() ==> (#[trigger] list[j]).2.len() <= 0x1000010,
    ensures
        0 <= spec_blob_list_size(list, n) <= n * 0x1000018,
    decreases n,
{
    if n > 0 {
        lemma_blob_list_size_bound(list, n - 1);
        assert((n - 1) * 0x1000018 + 0x1000018 == n * 0x1000018) by (nonlinear_arith);
    }
}

/// The alternates' sizes are covered by a fixed overhead per
/// directory plus its digest table.
proof fn lemma_alts_size(
    alts: Seq<Vec<u8>>,
    extras: Seq<DigestKind>,
    cl: int,
    n: int,
    it: int,
)
    requires
        0 <= n <= alts.len(),
        n <= extras.len(),
        0 <= it,
        forall|j: int|
            0 <= j < n ==> (#[trigger] alts[j])@.len() <= 802 + it + spec_page_count(cl, 4096)
                * spec_hash_len(extras[j]),
    ensures
        crate::superblob::spec_vecs_bodies_len(alts, n) <= n * (802 + it)
            + spec_extra_digests_size(extras, cl, n),
    decreases n,
{
    if n > 0 {
        lemma_alts_size(alts, extras, cl, n - 1, it);
        assert((n - 1) * (802 + it) + (802 + it) == n * (802 + it)) by (nonlinear_arith);
    }
}

/// An assembled builder holds exactly the canonical entry list, and
/// its serialized length is bounded: always below the 32-bit length
/// field's limit, and below the size estimate for ad-hoc settings
/// within the identifier margin on executables.
#[verifier::rlimit(100)]
#[verifier::spinoff_prover]
proof fn lemma_assembled_builder(
    b: EmbeddedSignatureBuilder,
    s: SigningSettings,
    img: MachOImage,
    data: Seq<u8>,
    cms_payload: Option<Seq<u8>>,
    cl: int,
    is_exec: bool,
)
    requires
        s.spec_bounded(),
        is_exec == (img.header.filetype == MH_EXECUTE),
        cl == img.spec_code_limit(find_linkedit_rec(img.segments@, 0)->Some_0),
        0 <= cl <= 0xffffffff,
        spec_ident_team_len(s) <= 0x1fe,
        b.code_directory matches Some(cdb) && cdb@ == spec_full_cd_bytes(
            s,
            img,
            data,
            s.digest_type,
            spec_special_blob_pairs(s, is_exec),
        ) && cdb@.len() <= 802 + spec_ident_team_len(s) + spec_page_count(cl, 4096)
            * spec_hash_len(s.digest_type) && cdb@.len() <= 0xffffff00,
        b.specials@.len() == spec_special_blob_list(s, is_exec).len(),
        forall|j: int|
            0 <= j < b.specials@.len() ==> (#[trigger] b.specials@[j]).0
                == spec_special_blob_list(s, is_exec)[j].0 as u32,
        forall|j: int|
            0 <= j < b.specials@.len() ==> (#[trigger] b.specials@[j]).1@ == spec_blob_bytes(
                spec_special_blob_list(s, is_exec)[j].1,
                spec_special_blob_list(s, is_exec)[j].2,
            ),
        forall|j: int|
            0 <= j < b.specials@.len() ==> (#[trigger] b.specials@[j]).1@.len()
                == spec_special_blob_list(s, is_exec)[j].2.len() + 8,
        forall|j: int|
            0 <= j < spec_special_blob_list(s, is_exec).len() ==> (
            #[trigger] spec_special_blob_list(s, is_exec)[j]).2.len()
                <= 0x1000010,
        b.alternates@.len() == s.extra_digests@.len(),
        forall|j: int|
            0 <= j < b.alternates@.len() ==> (#[trigger] b.alternates@[j])@
                == spec_full_cd_bytes(
                s,
                img,
                data,
                s.extra_digests@[j],
                spec_special_blob_pairs(s, is_exec),
            ),
        forall|j: int|
            0 <= j < b.alternates@.len() ==> (#[trigger] b.alternates@[j])@.len() <= 802
                + spec_ident_team_len(s) + spec_page_count(cl, 4096) * spec_hash_len(
                s.extra_digests@[j],
            ),
        forall|j: int|
            0 <= j < b.alternates@.len() ==> (#[trigger] b.alternates@[j])@.len() <= 0xffffff00,
        b.signature matches Some(sg) && sg@ == spec_blob_bytes(
            CSMAGIC_BLOBWRAPPER,
            match cms_payload {
                Some(c) => c,
                None => Seq::empty(),
            },
        ),
        match cms_payload {
            Some(c) => c.len() <= 0x1000000,
            None => true,
        },
        s.signing is None ==> cms_payload is None,
    ensures
        b.spec_entries() == spec_superblob_entry_list(s, img, data, cms_payload),
        b.spec_entries().len() <= 0xffff,
        forall|i: int|
            0 <= i < b.spec_entries().len() ==> (#[trigger] b.spec_entries()[i]).1.len()
                <= 0xffffffff,
        spec_superblob_len(b.spec_entries()) <= 0xffffffff,
        spec_superblob_len(b.spec_entries()) >= 28,
        s.signing is None && spec_estimate_margin(s) && img.header.filetype == MH_EXECUTE
            ==> spec_superblob_len(b.spec_entries()) <= spec_estimate_size(s, cl),
{
    let list = spec_special_blob_list(s, is_exec);
    let nb = list.len() as int;
    let ne = s.extra_digests@.len() as int;
    let it = spec_ident_team_len(s);
    assert(nb <= 7);

    b.lemma_entries_len();
    assert forall|x: u32| (#[trigger] crate::bytes::be32(x)).len() == 4 by {
        reveal(crate::bytes::be32);
    }
    lemma_pairs_vs_list(b.specials@, list, nb);
    lemma_blob_list_size_bound(list, nb);
    lemma_alts_size(b.alternates@, s.extra_digests@, cl, ne, it);
    assert(spec_page_count(cl, 4096) <= 0x100000) by (nonlinear_arith)
        requires
            0 <= cl <= 0xffffffff,
    ;
    assert(spec_page_count(cl, 4096) * spec_hash_len(s.digest_type) <= 0x4000000)
        by (nonlinear_arith)
        requires
            0 <= spec_page_count(cl, 4096) <= 0x100000,
            0 <= spec_hash_len(s.digest_type) <= 64,
    ;
    lemma_extra_digests_size_bound(s.extra_digests@, cl, ne);
    let entries = b.spec_entries();
    assert(entries.len() == 2 + nb + ne);
    let sig_len: int = b.signature->Some_0@.len() as int;
    assert(sig_len <= 8 + 0x1000000);
    assert(crate::superblob::spec_vecs_bodies_len(b.alternates@, ne) <= ne * (802 + it)
        + spec_extra_digests_size(s.extra_digests@, cl, ne));
    assert(ne * (802 + it) <= 4 * (802 + 0x1fe)) by (nonlinear_arith)
        requires
            0 <= ne <= 4,
            0 <= it <= 0x1fe,
    ;
    assert(spec_superblob_len(entries) <= 0xffffffff);
    crate::superblob::lemma_sb_bodies_len_agree(entries, entries.len() as int);
    assert(spec_superblob_len(entries) >= 28);
    assert forall|i: int| 0 <= i < entries.len() implies (#[trigger] entries[i]).1.len()
        <= 0xffffffff by {
        if i == 0 {
            assert(entries[i].1 == b.code_directory->Some_0@);
        } else if i <= nb {
            assert(entries[i].1 == b.specials@.map_values(|p: (u32, Vec<u8>)| (p.0, p.1@))[i
                - 1].1);
            assert(entries[i].1 == b.specials@[i - 1].1@);
        } else if i <= nb + ne {
            assert(entries[i].1 == b.alternates@[i - 1 - nb]@);
        } else {
            assert(entries[i].1 == b.signature->Some_0@);
        }
    }

    // The entries are exactly the canonical list.
    reveal(spec_superblob_entry_list);
    let spec_pairs = spec_special_blob_pairs(s, is_exec);
    assert(b.specials@.map_values(|p: (u32, Vec<u8>)| (p.0, p.1@)) =~~= spec_pairs);
    assert(entries =~~= spec_superblob_entry_list(s, img, data, cms_payload));

    if s.signing is None && spec_estimate_margin(s) && img.header.filetype == MH_EXECUTE {
        let p0 = spec_page_count(cl, 4096) * spec_hash_len(s.digest_type);
        let ex = spec_extra_digests_size(s.extra_digests@, cl, ne);
        let bl = spec_blob_list_size(list, nb);
        assert(b.signature->Some_0@.len() == 8);
        assert(crate::superblob::spec_vecs_bodies_len(b.alternates@, ne) <= ne * 866 + ex) by {
            assert(ne * (802 + it) <= ne * 866) by (nonlinear_arith)
                requires
                    0 <= ne,
                    0 <= it <= 64,
            ;
        }
        assert(spec_superblob_len(entries) <= 12 + 8 * (2 + nb + ne) + (866 + p0) + bl + (ne * 866
            + ex) + 8);
        let base = 1024 * (1 + ne) + p0 + ex + bl + 4096 + (if s.time_stamp_url is Some {
            8192int
        } else {
            0int
        });
        assert(spec_estimate_size(s, cl) == base + 1024 - base % 1024);
        assert(0 <= base % 1024 < 1024);
        assert(866 * (1 + ne) <= 1024 * (1 + ne)) by (nonlinear_arith)
            requires
                0 <= ne,
        ;
        assert(spec_superblob_len(entries) <= spec_estimate_size(s, cl));
    }
}

/// The extra digest tables are bounded by the page count.
proof fn lemma_extra_digests_size_bound(extras: Seq<DigestKind>, cl: int, n: int)
    requires
        0 <= n <= extras.len(),
        0 <= cl <= 0xffffffff,
    ensures
        0 <= spec_extra_digests_size(extras, cl, n) <= n * 0x4000000,
    decreases n,
{
    if n > 0 {
        lemma_extra_digests_size_bound(extras, cl, n - 1);
        assert(spec_page_count(cl, 4096) <= 0x100000) by (nonlinear_arith)
            requires
                0 <= cl <= 0xffffffff,
        ;
        assert(spec_page_count(cl, 4096) * spec_hash_len(extras[n - 1]) <= 0x4000000)
            by (nonlinear_arith)
            requires
                0 <= spec_page_count(cl, 4096) <= 0x100000,
                0 <= spec_hash_len(extras[n - 1]) <= 64,
        ;
        assert((n - 1) * 0x4000000 + 0x4000000 == n * 0x4000000) by (nonlinear_arith);
    }
}

} // verus!
// Two-pass per-slice signing and the top-level loop.

verus! {

/// What a successfully assembled slice is: there is an intermediate
/// image, produced by rewriting the input with a NUL-filled
/// reservation, that parses; the signature region of the output holds
/// the SuperBlob built over that intermediate image (for ad-hoc
/// settings, exactly the canonical one), right-padded with NULs to the
/// reservation; and the output is the rewrite of the intermediate
/// image with those signature bytes.
pub open spec fn spec_assembled_slice(
    s: SigningSettings,
    img: MachOImage,
    data: Seq<u8>,
    reservation: int,
    out: Seq<u8>,
) -> bool {
    exists|img2: MachOImage, idata: Seq<u8>, sig: Seq<u8>|
        {
            &&& #[trigger] spec_rewrite_ok(img2, idata, sig, out)
            &&& spec_rewrite_ok(img, data, Seq::new(reservation as nat, |z: int| 0u8), idata)
            &&& img2.wf(idata)
            &&& sig.len() == reservation
            &&& (s.signing is None ==> {
                let sb = crate::superblob::spec_superblob_bytes(
                    spec_superblob_entry_list(s, img2, idata, None),
                );
                sig == sb + Seq::new((reservation - sb.len()) as nat, |z: int| 0u8)
            })
            &&& (s.signing is Some ==> exists|c: Seq<u8>|
                {
                    let sb = crate::superblob::spec_superblob_bytes(
                        #[trigger] spec_superblob_entry_list(s, img2, idata, Some(c)),
                    );
                    sig == sb + Seq::new((reservation - sb.len()) as nat, |z: int| 0u8)
                })
        }
}

impl MachOSigner {
    /// Sign one slice with an explicit reservation: rewrite with a
    /// NUL-filled reservation, re-parse, build the SuperBlob over the
    /// intermediate image, pad it to the reservation and rewrite
    /// again.
    ///
    /// Fails with `SignatureDataTooLarge` exactly when the real
    /// signature exceeds the reservation.
    pub fn assemble_slice<C: CmsSigner>(
        &self,
        settings: &SigningSettings,
        img: &MachOImage,
        data: &[u8],
        reservation: usize,
        cms: &mut C,
    ) -> (r: Result<Vec<u8>, SigningError>)
        requires
            settings.spec_bounded(),
            img.wf(data@),
            data@.len() <= 0xffffffff,
            reservation <= 0x20000000,
        ensures
            r is Ok ==> img.spec_signable(),
            (match r {
                Ok(out) => spec_assembled_slice(
                    *settings,
                    *img,
                    data@,
                    reservation as int,
                    out@,
                ),
                Err(e) => true,
            }),
            r == Err::<Vec<u8>, SigningError>(SigningError::SignatureDataTooLarge)
                ==> exists|img2: MachOImage, idata: Seq<u8>|
                {
                    &&& #[trigger] img2.wf(idata)
                    &&& spec_rewrite_ok(
                        *img,
                        data@,
                        Seq::new(reservation as nat, |z: int| 0u8),
                        idata,
                    )
                    &&& (settings.signing is None
                        ==> crate::superblob::spec_superblob_bytes(
                            spec_superblob_entry_list(*settings, img2, idata, None),
                        ).len() > reservation)
                },
    {
        let data_len: usize = data.len();
        if data_len > usize::MAX - 32768 || reservation > usize::MAX - 32768 - data_len {
            return Err(SigningError::UnsupportedBinary);
        }
        let mut placeholder: Vec<u8> = Vec::new();
        crate::bytes::push_zeros(&mut placeholder, reservation);
        let intermediate = match create_macho_with_signature(img, data, placeholder.as_slice()) {
            Ok(v) => v,
            Err(e) => {
                return Err(e);
            },
        };
        if intermediate.len() > 0xffffffff {
            return Err(SigningError::UnsupportedBinary);
        }
        // Re-parsing validates the rewriter output.
        let intermediate_img = match parse_macho(intermediate.as_slice()) {
            Ok(v) => v,
            Err(e) => {
                return Err(e);
            },
        };
        let mut signature_data = match self.create_superblob(
            settings,
            &intermediate_img,
            intermediate.as_slice(),
            cms,
        ) {
            Ok(v) => v,
            Err(e) => {
                return Err(e);
            },
        };
        if signature_data.len() > reservation {
            proof {
                assert(intermediate_img.wf(intermediate@));
            }
            return Err(SigningError::SignatureDataTooLarge);
        }
        let pad = reservation - signature_data.len();
        let ghost sb = signature_data@;
        crate::bytes::push_zeros(&mut signature_data, pad);
        let intermediate_len: usize = intermediate.len();
        if intermediate_len > usize::MAX - 32768 || reservation > usize::MAX - 32768
            - intermediate_len {
            return Err(SigningError::UnsupportedBinary);
        }
        let signed = match create_macho_with_signature(
            &intermediate_img,
            intermediate.as_slice(),
            signature_data.as_slice(),
        ) {
            Ok(v) => v,
            Err(e) => {
                return Err(e);
            },
        };
        proof {
            reveal(crate::rewrite::spec_rewrite_ok);
            assert(signature_data@ == sb + Seq::new((reservation - sb.len()) as nat, |z: int| 0u8));
            if settings.signing is Some {
                let c = choose|c: Seq<u8>|
                    sb == crate::superblob::spec_superblob_bytes(
                        #[trigger] spec_superblob_entry_list(
                            *settings,
                            intermediate_img,
                            intermediate@,
                            Some(c),
                        ),
                    );
                assert(sb == crate::superblob::spec_superblob_bytes(
                    spec_superblob_entry_list(
                        *settings,
                        intermediate_img,
                        intermediate@,
                        Some(c),
                    ),
                ));
            }
            assert(spec_rewrite_ok(intermediate_img, intermediate@, signature_data@, signed@));
            assert(spec_assembled_slice(
                *settings,
                *img,
                data@,
                reservation as int,
                signed@,
            ));
        }
        Ok(signed)
    }

    /// Sign every slice and emit the final binary: the slice itself
    /// for thin input, a universal binary framing the slices
    /// otherwise.
    ///
    /// Settings are specialized per slice; a slice whose effective
    /// identifier is missing fails with `NoIdentifier` before any
    /// rewrite of that slice.
    pub fn write_signed_binary<C: CmsSigner>(&self, settings: &SigningSettings, cms: &mut C) -> (r:
        Result<Vec<u8>, SigningError>)
        requires
            self.wf(),
            settings.spec_bounded(),
            forall|i: int| 0 <= i < self.slices@.len() ==> (#[trigger] self.slices@[i])@.len()
                <= 0xffffffff,
        ensures
            (settings.spec_identifier_for(self.images@[0].header.cputype) is None ==> r
                == Err::<Vec<u8>, SigningError>(SigningError::NoIdentifier)),
            (match r {
                Ok(out) => self.slices@.len() == 1 && settings.arch_identifiers@.len() == 0
                    ==> spec_assembled_slice(
                    *settings,
                    self.images@[0],
                    self.slices@[0]@,
                    spec_estimate_size(
                        *settings,
                        self.images@[0].spec_code_limit(
                            find_linkedit_rec(self.images@[0].segments@, 0)->Some_0,
                        ),
                    ),
                    out@,
                ),
                Err(e) => true,
            }),
    {
        let n = self.slices.len();
        if n == 1 && settings.arch_identifiers.len() == 0 {
            // A thin input without per-architecture overrides signs
            // against the settings as given.
            if settings.identifier.is_none() {
                return Err(SigningError::NoIdentifier);
            }
            let reservation = match self.estimate_embedded_signature_size(
                &self.images[0],
                settings,
            ) {
                Ok(v) => v,
                Err(e) => {
                    return Err(e);
                },
            };
            return self.assemble_slice(
                settings,
                &self.images[0],
                self.slices[0].as_slice(),
                reservation,
                cms,
            );
        }
        // Validate every slice's effective identifier before touching
        // any bytes.
        let mut i: usize = 0;
        while i < n
            invariant
                self.wf(),
                settings.spec_bounded(),
                n == self.slices@.len(),
                i <= n,
                forall|t: int|
                    0 <= t < i ==> settings.spec_identifier_for(
                        (#[trigger] self.images@[t]).header.cputype,
                    ) is Some,
            decreases n - i,
        {
            match settings.identifier_for(self.images[i].header.cputype) {
                Some(_) => {},
                None => {
                    return Err(SigningError::NoIdentifier);
                },
            }
            i = i + 1;
        }
        if n > 0xff {
            return Err(SigningError::UnsupportedBinary);
        }
        let mut binaries: Vec<Vec<u8>> = Vec::new();
        let mut archs: Vec<(u32, u32)> = Vec::new();
        let mut i: usize = 0;
        while i < n
            invariant
                self.wf(),
                settings.spec_bounded(),
                forall|t: int| 0 <= t < self.slices@.len() ==> (#[trigger] self.slices@[t])@.len()
                    <= 0xffffffff,
                n == self.slices@.len(),
                n <= 0xff,
                i <= n,
                binaries@.len() == i,
                archs@.len() == i,
                forall|t: int|
                    0 <= t < i ==> (#[trigger] binaries@[t])@.len() <= 0x10000000,
                settings.spec_identifier_for(self.images@[0].header.cputype) is Some,
            decreases n - i,
        {
            let slice_settings = settings.specialize(self.images[i].header.cputype);
            if slice_settings.identifier.is_none() {
                return Err(SigningError::NoIdentifier);
            }
            let reservation = match self.estimate_embedded_signature_size(
                &self.images[i],
                &slice_settings,
            ) {
                Ok(v) => v,
                Err(e) => {
                    return Err(e);
                },
            };
            let signed = match self.assemble_slice(
                &slice_settings,
                &self.images[i],
                self.slices[i].as_slice(),
                reservation,
                cms,
            ) {
                Ok(v) => v,
                Err(e) => {
                    return Err(e);
                },
            };
            if signed.len() > 0x10000000 {
                return Err(SigningError::UnsupportedBinary);
            }
            binaries.push(signed);
            archs.push((self.images[i].header.cputype, self.images[i].header.cpusubtype));
            i = i + 1;
        }
        if n > 1 {
            create_universal_macho(&binaries, &archs)
        } else {
            let mut binaries = binaries;
            match binaries.pop() {
                Some(v) => Ok(v),
                None => Err(SigningError::UnsupportedBinary),
            }
        }
    }
}

} // verus!
