//! Signing configuration.
//!
//! Identifier and team strings are held as UTF-8 bytes; certificate
//! material is held as DER bytes. The designated requirement derived
//! from a certificate is a pure function of the certificate and is
//! supplied by the caller alongside the identity.

use vstd::prelude::*;

use crate::bytes::clone_bytes;
use crate::digest::DigestKind;
use crate::entitlements::EntitlementsDict;
use vstd::string::StringSliceAdditionalSpecFns;

verus! {

pub const CS_ADHOC: u32 = 0x2;

pub const CS_RUNTIME: u32 = 0x10000;

pub const CS_LINKER_SIGNED: u32 = 0x20000;

/// How the designated requirement is chosen.
pub enum DesignatedRequirementMode {
    /// Derive from the signing certificate; ad-hoc signatures get an
    /// empty requirement set.
    Auto,
    /// Use the given encoded requirement expressions.
    Explicit(Vec<Vec<u8>>),
}

/// A signing identity: certificate material and the requirement
/// expression derived from it.
pub struct SigningIdentity {
    /// DER of the signing certificate.
    pub certificate_der: Vec<u8>,
    /// DER of the remaining certificate chain.
    pub chain_der: Vec<Vec<u8>>,
    /// The designated-requirement expression derived from the
    /// certificate, when the caller has derived one.
    pub derived_requirement: Option<Vec<u8>>,
}

/// Everything that configures one signing operation.
pub struct SigningSettings {
    pub identifier: Option<Vec<u8>>,
    pub team_name: Option<Vec<u8>>,
    pub digest_type: DigestKind,
    pub extra_digests: Vec<DigestKind>,
    pub flags: u32,
    /// Hardened-runtime version override, nibble encoded.
    pub runtime_version: Option<u32>,
    pub info_plist_data: Option<Vec<u8>>,
    pub code_resources_data: Option<Vec<u8>>,
    pub entitlements_xml: Option<Vec<u8>>,
    pub entitlements_plist: Option<EntitlementsDict>,
    pub launch_constraints_self: Option<Vec<u8>>,
    pub launch_constraints_parent: Option<Vec<u8>>,
    pub launch_constraints_responsible: Option<Vec<u8>>,
    pub library_constraints: Option<Vec<u8>>,
    pub designated_requirement: DesignatedRequirementMode,
    pub signing: Option<SigningIdentity>,
    /// Only its presence matters to the size estimate; the round trip
    /// itself happens outside the library.
    pub time_stamp_url: Option<Vec<u8>>,
    /// Per-architecture identifier overrides, keyed by `cputype`.
    pub arch_identifiers: Vec<(u32, Vec<u8>)>,
}

/// Encode a version triple the way Mach-O load commands do: major in
/// the upper sixteen bits, minor and patch in a byte each.
pub open spec fn spec_macho_target_version(major: u16, minor: u8, patch: u8) -> u32 {
    ((major as int) * 0x10000 + (minor as int) * 0x100 + (patch as int)) as u32
}

/// Encode a version triple as a Mach-O nibble version.
pub fn semver_to_macho_target_version(major: u16, minor: u8, patch: u8) -> (r: u32)
    ensures
        r == spec_macho_target_version(major, minor, patch),
{
    (major as u32) * 0x10000 + (minor as u32) * 0x100 + (patch as u32)
}

/// The requirement expressions that enter the RequirementSet.
pub open spec fn spec_req_exprs(s: SigningSettings) -> Seq<Seq<u8>> {
    match s.designated_requirement {
        DesignatedRequirementMode::Explicit(exprs) => exprs@.map_values(|v: Vec<u8>| v@),
        DesignatedRequirementMode::Auto => match s.signing {
            Some(id) => match id.derived_requirement {
                Some(d) => seq![d@],
                None => Seq::empty(),
            },
            None => Seq::empty(),
        },
    }
}

impl SigningSettings {
    /// Plain defaults: SHA-256, no identity, automatic requirements.
    pub fn new() -> (r: SigningSettings)
        ensures
            r.identifier is None,
            r.team_name is None,
            r.digest_type == DigestKind::Sha256,
            r.extra_digests@.len() == 0,
            r.flags == 0,
            r.runtime_version is None,
            r.info_plist_data is None,
            r.code_resources_data is None,
            r.entitlements_xml is None,
            r.entitlements_plist is None,
            r.launch_constraints_self is None,
            r.launch_constraints_parent is None,
            r.launch_constraints_responsible is None,
            r.library_constraints is None,
            r.designated_requirement is Auto,
            r.signing is None,
            r.time_stamp_url is None,
            r.arch_identifiers@.len() == 0,
    {
        SigningSettings {
            identifier: None,
            team_name: None,
            digest_type: DigestKind::Sha256,
            extra_digests: Vec::new(),
            flags: 0,
            runtime_version: None,
            info_plist_data: None,
            code_resources_data: None,
            entitlements_xml: None,
            entitlements_plist: None,
            launch_constraints_self: None,
            launch_constraints_parent: None,
            launch_constraints_responsible: None,
            library_constraints: None,
            designated_requirement: DesignatedRequirementMode::Auto,
            signing: None,
            time_stamp_url: None,
            arch_identifiers: Vec::new(),
        }
    }

    /// Set the binary identifier from a string.
    pub fn set_binary_identifier(&mut self, identifier: &str)
        ensures
            match final(self).identifier {
                Some(v) => v@ == identifier.spec_bytes(),
                None => false,
            },
            *final(self) == (SigningSettings { identifier: final(self).identifier, ..*old(self) }),
    {
        self.identifier = Some(crate::entitlements::bytes_of_str(identifier));
    }

    /// The identifier to use for a slice of the given CPU type: the
    /// first matching per-architecture override, else the main one.
    pub open spec fn spec_identifier_for(self, cputype: u32) -> Option<Seq<u8>> {
        match spec_find_arch_identifier(self.arch_identifiers@, cputype, 0) {
            Some(v) => Some(v),
            None => match self.identifier {
                Some(v) => Some(v@),
                None => None,
            },
        }
    }

    /// Find the effective identifier for a slice.
    pub fn identifier_for(&self, cputype: u32) -> (r: Option<Vec<u8>>)
        ensures
            match r {
                Some(v) => self.spec_identifier_for(cputype) == Some(v@),
                None => self.spec_identifier_for(cputype) is None,
            },
    {
        let n = self.arch_identifiers.len();
        let mut i: usize = 0;
        while i < n
            invariant
                n == self.arch_identifiers@.len(),
                i <= n,
                spec_find_arch_identifier(self.arch_identifiers@, cputype, 0)
                    == spec_find_arch_identifier(self.arch_identifiers@, cputype, i as int),
            decreases n - i,
        {
            if self.arch_identifiers[i].0 == cputype {
                return Some(clone_bytes(&self.arch_identifiers[i].1));
            }
            i = i + 1;
        }
        match &self.identifier {
            Some(v) => Some(clone_bytes(v)),
            None => None,
        }
    }
}

/// A found override keeps the per-entry length bound.
pub proof fn lemma_find_arch_identifier_bounded(
    entries: Seq<(u32, Vec<u8>)>,
    cputype: u32,
    i: int,
)
    requires
        forall|j: int| 0 <= j < entries.len() ==> (#[trigger] entries[j]).1@.len() <= 0xff,
    ensures
        match spec_find_arch_identifier(entries, cputype, i) {
            Some(v) => v.len() <= 0xff,
            None => true,
        },
    decreases entries.len() - i,
{
    if 0 <= i < entries.len() {
        if entries[i].0 != cputype {
            lemma_find_arch_identifier_bounded(entries, cputype, i + 1);
        }
    }
}

/// First per-architecture identifier override at or after `i`.
pub open spec fn spec_find_arch_identifier(
    entries: Seq<(u32, Vec<u8>)>,
    cputype: u32,
    i: int,
) -> Option<Seq<u8>>
    decreases entries.len() - i,
{
    if !(0 <= i < entries.len()) {
        None
    } else if entries[i].0 == cputype {
        Some(entries[i].1@)
    } else {
        spec_find_arch_identifier(entries, cputype, i + 1)
    }
}

} // verus!
// Bounds and per-slice specialization.

verus! {

/// Copy an optional byte string.
fn clone_opt_bytes(v: &Option<Vec<u8>>) -> (r: Option<Vec<u8>>)
    ensures
        r is Some <==> v is Some,
        match (r, v) {
            (Some(a), Some(b)) => a@ == b@,
            (None, None) => true,
            _ => false,
        },
{
    match v {
        Some(b) => Some(clone_bytes(b)),
        None => None,
    }
}

/// Copy a list of byte strings.
fn clone_vec_bytes(v: &Vec<Vec<u8>>) -> (r: Vec<Vec<u8>>)
    ensures
        r@.len() == v@.len(),
        forall|i: int| 0 <= i < v@.len() ==> (#[trigger] r@[i])@ == v@[i]@,
{
    let mut out: Vec<Vec<u8>> = Vec::new();
    let n = v.len();
    let mut i: usize = 0;
    while i < n
        invariant
            n == v@.len(),
            i <= n,
            out@.len() == i,
            forall|j: int| 0 <= j < i ==> (#[trigger] out@[j])@ == v@[j]@,
        decreases n - i,
    {
        out.push(clone_bytes(&v[i]));
        i = i + 1;
    }
    out
}

/// Copy an entitlements dictionary, preserving every key and value.
fn clone_dict(v: &crate::entitlements::EntitlementsDict) -> (r:
    crate::entitlements::EntitlementsDict)
    ensures
        r@.len() == v@.len(),
        forall|i: int| 0 <= i < v@.len() ==> (#[trigger] r@[i]).0@ == v@[i].0@,
        forall|i: int|
            0 <= i < v@.len() ==> crate::entitlements::spec_ent_val_eq(
                (#[trigger] r@[i]).1,
                v@[i].1,
            ),
{
    let mut out: crate::entitlements::EntitlementsDict = Vec::new();
    let n = v.len();
    let mut i: usize = 0;
    while i < n
        invariant
            n == v@.len(),
            i <= n,
            out@.len() == i,
            forall|j: int| 0 <= j < i ==> (#[trigger] out@[j]).0@ == v@[j].0@,
            forall|j: int|
                0 <= j < i ==> crate::entitlements::spec_ent_val_eq(
                    (#[trigger] out@[j]).1,
                    v@[j].1,
                ),
        decreases n - i,
    {
        let key = clone_bytes(&v[i].0);
        let value = match &v[i].1 {
            crate::entitlements::EntitlementValue::Boolean(b) => crate::entitlements::EntitlementValue::Boolean(*b),
            crate::entitlements::EntitlementValue::Text(t) => crate::entitlements::EntitlementValue::Text(clone_bytes(t)),
        };
        out.push((key, value));
        i = i + 1;
    }
    out
}

impl SigningSettings {
    /// Sizes that keep every signature structure within its format
    /// limits.
    pub open spec fn spec_bounded(self) -> bool {
        &&& match self.identifier {
            Some(v) => v@.len() <= 0xff,
            None => true,
        }
        &&& match self.team_name {
            Some(v) => v@.len() <= 0xff,
            None => true,
        }
        &&& self.extra_digests@.len() <= 4
        &&& match self.info_plist_data {
            Some(v) => v@.len() <= 0x1000000,
            None => true,
        }
        &&& match self.code_resources_data {
            Some(v) => v@.len() <= 0x1000000,
            None => true,
        }
        &&& match self.entitlements_xml {
            Some(v) => v@.len() <= 0x100000,
            None => true,
        }
        &&& match self.entitlements_plist {
            Some(d) => crate::entitlements::spec_ents_bounded(d@),
            None => true,
        }
        &&& match self.launch_constraints_self {
            Some(v) => v@.len() <= 0x100000,
            None => true,
        }
        &&& match self.launch_constraints_parent {
            Some(v) => v@.len() <= 0x100000,
            None => true,
        }
        &&& match self.launch_constraints_responsible {
            Some(v) => v@.len() <= 0x100000,
            None => true,
        }
        &&& match self.library_constraints {
            Some(v) => v@.len() <= 0x100000,
            None => true,
        }
        &&& match self.designated_requirement {
            DesignatedRequirementMode::Explicit(exprs) => exprs@.len() <= 0xff && forall|i: int|
                0 <= i < exprs@.len() ==> (#[trigger] exprs@[i])@.len() <= 0xffff,
            DesignatedRequirementMode::Auto => true,
        }
        &&& match self.signing {
            Some(id) => {
                &&& id.certificate_der@.len() <= 0x10000
                &&& id.chain_der@.len() <= 0x40
                &&& (forall|i: int|
                    0 <= i < id.chain_der@.len() ==> (#[trigger] id.chain_der@[i])@.len()
                        <= 0x10000)
                &&& match id.derived_requirement {
                    Some(v) => v@.len() <= 0xffff,
                    None => true,
                }
            },
            None => true,
        }
        &&& match self.arch_identifiers@.len() <= 0x10 {
            true => forall|i: int|
                0 <= i < self.arch_identifiers@.len() ==> (
                #[trigger] self.arch_identifiers@[i]).1@.len() <= 0xff,
            false => false,
        }
    }

    /// All requirement expressions entering the RequirementSet are
    /// bounded when the settings are.
    pub proof fn lemma_bounded_req_exprs(self)
        requires
            self.spec_bounded(),
        ensures
            spec_req_exprs(self).len() <= 0xff,
            forall|i: int|
                0 <= i < spec_req_exprs(self).len() ==> (#[trigger] spec_req_exprs(self)[i]).len()
                    <= 0xffff,
    {
    }

    /// Specialize the settings to one architecture slice: apply the
    /// matching identifier override and keep everything else.
    pub fn specialize(&self, cputype: u32) -> (r: SigningSettings)
        ensures
            match r.identifier {
                Some(v) => self.spec_identifier_for(cputype) == Some(v@),
                None => self.spec_identifier_for(cputype) is None,
            },
            match (r.team_name, self.team_name) {
                (Some(a), Some(b)) => a@ == b@,
                (None, None) => true,
                _ => false,
            },
            r.digest_type == self.digest_type,
            r.extra_digests@ == self.extra_digests@,
            r.flags == self.flags,
            r.runtime_version == self.runtime_version,
            match (r.info_plist_data, self.info_plist_data) {
                (Some(a), Some(b)) => a@ == b@,
                (None, None) => true,
                _ => false,
            },
            match (r.code_resources_data, self.code_resources_data) {
                (Some(a), Some(b)) => a@ == b@,
                (None, None) => true,
                _ => false,
            },
            match (r.entitlements_xml, self.entitlements_xml) {
                (Some(a), Some(b)) => a@ == b@,
                (None, None) => true,
                _ => false,
            },
            match (r.entitlements_plist, self.entitlements_plist) {
                (Some(a), Some(b)) => a@.len() == b@.len() && (forall|i: int|
                    0 <= i < b@.len() ==> (#[trigger] a@[i]).0@ == b@[i].0@) && (forall|i: int|
                    0 <= i < b@.len() ==> crate::entitlements::spec_ent_val_eq(
                        (#[trigger] a@[i]).1,
                        b@[i].1,
                    )),
                (None, None) => true,
                _ => false,
            },
            match (r.launch_constraints_self, self.launch_constraints_self) {
                (Some(a), Some(b)) => a@ == b@,
                (None, None) => true,
                _ => false,
            },
            match (r.launch_constraints_parent, self.launch_constraints_parent) {
                (Some(a), Some(b)) => a@ == b@,
                (None, None) => true,
                _ => false,
            },
            match (r.launch_constraints_responsible, self.launch_constraints_responsible) {
                (Some(a), Some(b)) => a@ == b@,
                (None, None) => true,
                _ => false,
            },
            match (r.library_constraints, self.library_constraints) {
                (Some(a), Some(b)) => a@ == b@,
                (None, None) => true,
                _ => false,
            },
            spec_req_exprs(r) == spec_req_exprs(*self),
            r.signing is Some <==> self.signing is Some,
            match (r.signing, self.signing) {
                (Some(a), Some(b)) => a.chain_der@.len() == b.chain_der@.len() && (forall|i: int|
                    0 <= i < b.chain_der@.len() ==> (#[trigger] a.chain_der@[i])@
                        == b.chain_der@[i]@) && a.certificate_der@ == b.certificate_der@,
                (None, None) => true,
                _ => false,
            },
            r.time_stamp_url is Some <==> self.time_stamp_url is Some,
            r.arch_identifiers@.len() == 0,
            self.spec_bounded() && (match self.arch_identifiers@.len() {
                _ => true,
            }) ==> r.spec_bounded(),
    {
        proof {
            if self.spec_bounded() {
                lemma_find_arch_identifier_bounded(self.arch_identifiers@, cputype, 0);
            }
        }
        let identifier = self.identifier_for(cputype);
        let signing = match &self.signing {
            Some(id) => Some(
                SigningIdentity {
                    certificate_der: clone_bytes(&id.certificate_der),
                    chain_der: clone_vec_bytes(&id.chain_der),
                    derived_requirement: clone_opt_bytes(&id.derived_requirement),
                },
            ),
            None => None,
        };
        let designated_requirement = match &self.designated_requirement {
            DesignatedRequirementMode::Auto => DesignatedRequirementMode::Auto,
            DesignatedRequirementMode::Explicit(exprs) => DesignatedRequirementMode::Explicit(
                clone_vec_bytes(exprs),
            ),
        };
        let r = SigningSettings {
            identifier,
            team_name: clone_opt_bytes(&self.team_name),
            digest_type: self.digest_type,
            extra_digests: clone_digests(&self.extra_digests),
            flags: self.flags,
            runtime_version: self.runtime_version,
            info_plist_data: clone_opt_bytes(&self.info_plist_data),
            code_resources_data: clone_opt_bytes(&self.code_resources_data),
            entitlements_xml: clone_opt_bytes(&self.entitlements_xml),
            entitlements_plist: match &self.entitlements_plist {
                Some(d) => Some(clone_dict(d)),
                None => None,
            },
            launch_constraints_self: clone_opt_bytes(&self.launch_constraints_self),
            launch_constraints_parent: clone_opt_bytes(&self.launch_constraints_parent),
            launch_constraints_responsible: clone_opt_bytes(&self.launch_constraints_responsible),
            library_constraints: clone_opt_bytes(&self.library_constraints),
            designated_requirement,
            signing,
            time_stamp_url: clone_opt_bytes(&self.time_stamp_url),
            arch_identifiers: Vec::new(),
        };
        proof {
            assert(spec_req_exprs(r) =~~= spec_req_exprs(*self));
        }
        r
    }

    /// The same settings with another primary digest, for alternative
    /// Code Directories.
    pub fn with_digest_type(&self, kind: crate::digest::DigestKind) -> (r: SigningSettings)
        ensures
            r.digest_type == kind,
            match (r.identifier, self.identifier) {
                (Some(a), Some(b)) => a@ == b@,
                (None, None) => true,
                _ => false,
            },
            match (r.team_name, self.team_name) {
                (Some(a), Some(b)) => a@ == b@,
                (None, None) => true,
                _ => false,
            },
            r.extra_digests@ == self.extra_digests@,
            r.flags == self.flags,
            r.runtime_version == self.runtime_version,
            match (r.info_plist_data, self.info_plist_data) {
                (Some(a), Some(b)) => a@ == b@,
                (None, None) => true,
                _ => false,
            },
            match (r.code_resources_data, self.code_resources_data) {
                (Some(a), Some(b)) => a@ == b@,
                (None, None) => true,
                _ => false,
            },
            match (r.entitlements_xml, self.entitlements_xml) {
                (Some(a), Some(b)) => a@ == b@,
                (None, None) => true,
                _ => false,
            },
            match (r.entitlements_plist, self.entitlements_plist) {
                (Some(a), Some(b)) => a@.len() == b@.len() && (forall|i: int|
                    0 <= i < b@.len() ==> (#[trigger] a@[i]).0@ == b@[i].0@) && (forall|i: int|
                    0 <= i < b@.len() ==> crate::entitlements::spec_ent_val_eq(
                        (#[trigger] a@[i]).1,
                        b@[i].1,
                    )),
                (None, None) => true,
                _ => false,
            },
            match (r.launch_constraints_self, self.launch_constraints_self) {
                (Some(a), Some(b)) => a@ == b@,
                (None, None) => true,
                _ => false,
            },
            match (r.launch_constraints_parent, self.launch_constraints_parent) {
                (Some(a), Some(b)) => a@ == b@,
                (None, None) => true,
                _ => false,
            },
            match (r.launch_constraints_responsible, self.launch_constraints_responsible) {
                (Some(a), Some(b)) => a@ == b@,
                (None, None) => true,
                _ => false,
            },
            match (r.library_constraints, self.library_constraints) {
                (Some(a), Some(b)) => a@ == b@,
                (None, None) => true,
                _ => false,
            },
            spec_req_exprs(r) == spec_req_exprs(*self),
            r.signing is Some <==> self.signing is Some,
            r.time_stamp_url is Some <==> self.time_stamp_url is Some,
            self.spec_bounded() ==> r.spec_bounded(),
    {
        let mut r = self.specialize_keep_identifier();
        r.digest_type = kind;
        r
    }

    /// A full copy keeping the main identifier, used when deriving
    /// alternates.
    fn specialize_keep_identifier(&self) -> (r: SigningSettings)
        ensures
            match (r.identifier, self.identifier) {
                (Some(a), Some(b)) => a@ == b@,
                (None, None) => true,
                _ => false,
            },
            match (r.team_name, self.team_name) {
                (Some(a), Some(b)) => a@ == b@,
                (None, None) => true,
                _ => false,
            },
            r.digest_type == self.digest_type,
            r.extra_digests@ == self.extra_digests@,
            r.flags == self.flags,
            r.runtime_version == self.runtime_version,
            match (r.info_plist_data, self.info_plist_data) {
                (Some(a), Some(b)) => a@ == b@,
                (None, None) => true,
                _ => false,
            },
            match (r.code_resources_data, self.code_resources_data) {
                (Some(a), Some(b)) => a@ == b@,
                (None, None) => true,
                _ => false,
            },
            match (r.entitlements_xml, self.entitlements_xml) {
                (Some(a), Some(b)) => a@ == b@,
                (None, None) => true,
                _ => false,
            },
            match (r.entitlements_plist, self.entitlements_plist) {
                (Some(a), Some(b)) => a@.len() == b@.len() && (forall|i: int|
                    0 <= i < b@.len() ==> (#[trigger] a@[i]).0@ == b@[i].0@) && (forall|i: int|
                    0 <= i < b@.len() ==> crate::entitlements::spec_ent_val_eq(
                        (#[trigger] a@[i]).1,
                        b@[i].1,
                    )),
                (None, None) => true,
                _ => false,
            },
            match (r.launch_constraints_self, self.launch_constraints_self) {
                (Some(a), Some(b)) => a@ == b@,
                (None, None) => true,
                _ => false,
            },
            match (r.launch_constraints_parent, self.launch_constraints_parent) {
                (Some(a), Some(b)) => a@ == b@,
                (None, None) => true,
                _ => false,
            },
            match (r.launch_constraints_responsible, self.launch_constraints_responsible) {
                (Some(a), Some(b)) => a@ == b@,
                (None, None) => true,
                _ => false,
            },
            match (r.library_constraints, self.library_constraints) {
                (Some(a), Some(b)) => a@ == b@,
                (None, None) => true,
                _ => false,
            },
            spec_req_exprs(r) == spec_req_exprs(*self),
            r.signing is Some <==> self.signing is Some,
            r.time_stamp_url is Some <==> self.time_stamp_url is Some,
            self.spec_bounded() ==> r.spec_bounded(),
    {
        let signing = match &self.signing {
            Some(id) => Some(
                SigningIdentity {
                    certificate_der: clone_bytes(&id.certificate_der),
                    chain_der: clone_vec_bytes(&id.chain_der),
                    derived_requirement: clone_opt_bytes(&id.derived_requirement),
                },
            ),
            None => None,
        };
        let designated_requirement = match &self.designated_requirement {
            DesignatedRequirementMode::Auto => DesignatedRequirementMode::Auto,
            DesignatedRequirementMode::Explicit(exprs) => DesignatedRequirementMode::Explicit(
                clone_vec_bytes(exprs),
            ),
        };
        let r = SigningSettings {
            identifier: clone_opt_bytes(&self.identifier),
            team_name: clone_opt_bytes(&self.team_name),
            digest_type: self.digest_type,
            extra_digests: clone_digests(&self.extra_digests),
            flags: self.flags,
            runtime_version: self.runtime_version,
            info_plist_data: clone_opt_bytes(&self.info_plist_data),
            code_resources_data: clone_opt_bytes(&self.code_resources_data),
            entitlements_xml: clone_opt_bytes(&self.entitlements_xml),
            entitlements_plist: match &self.entitlements_plist {
                Some(d) => Some(clone_dict(d)),
                None => None,
            },
            launch_constraints_self: clone_opt_bytes(&self.launch_constraints_self),
            launch_constraints_parent: clone_opt_bytes(&self.launch_constraints_parent),
            launch_constraints_responsible: clone_opt_bytes(&self.launch_constraints_responsible),
            library_constraints: clone_opt_bytes(&self.library_constraints),
            designated_requirement,
            signing,
            time_stamp_url: clone_opt_bytes(&self.time_stamp_url),
            arch_identifiers: Vec::new(),
        };
        proof {
            assert(spec_req_exprs(r) =~~= spec_req_exprs(*self));
        }
        r
    }
}

/// Copy a digest list.
fn clone_digests(v: &Vec<crate::digest::DigestKind>) -> (r: Vec<crate::digest::DigestKind>)
    ensures
        r@ == v@,
{
    let mut out: Vec<crate::digest::DigestKind> = Vec::new();
    let n = v.len();
    let mut i: usize = 0;
    while i < n
        invariant
            n == v@.len(),
            i <= n,
            out@ == v@.take(i as int),
        decreases n - i,
    {
        out.push(v[i]);
        proof {
            assert(out@ =~= v@.take(i + 1));
        }
        i = i + 1;
    }
    proof {
        assert(v@.take(n as int) =~= v@);
    }
    out
}

} // verus!
