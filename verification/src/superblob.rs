//! SuperBlob assembly.
//!
//! The builder accumulates serialized members keyed by slot, keeps the
//! canonical ordering — Code Directory first, special slots ascending,
//! alternates, the CMS Signature wrapper last — and emits the outer
//! envelope: magic, total length, count, the slot/offset index and the
//! concatenated members.

use vstd::prelude::*;

use crate::blobs::{
    spec_blob_bytes, BlobData, CSMAGIC_BLOBWRAPPER, CSMAGIC_EMBEDDED_SIGNATURE,
    CSSLOT_ALTERNATE_BASE, CSSLOT_CODEDIRECTORY, CSSLOT_SIGNATURE,
};
use crate::bytes::{be32, push_bytes, push_u32};
use crate::errors::SigningError;

verus! {

/// The index entries for `entries`, offsets starting after the
/// 12-byte header and the index itself.
pub open spec fn spec_sb_index(entries: Seq<(u32, Seq<u8>)>, n: int) -> Seq<u8>
    decreases n,
{
    if n <= 0 {
        Seq::empty()
    } else {
        spec_sb_index(entries, n - 1) + be32(entries[n - 1].0) + be32(
            (12 + 8 * entries.len() + spec_sb_bodies_len(entries, n - 1)) as u32,
        )
    }
}

/// Total length of the first `n` member bodies.
pub open spec fn spec_sb_bodies_len(entries: Seq<(u32, Seq<u8>)>, n: int) -> int
    decreases n,
{
    if n <= 0 {
        0
    } else {
        spec_sb_bodies_len(entries, n - 1) + entries[n - 1].1.len()
    }
}

/// The first `n` member bodies, concatenated.
pub open spec fn spec_sb_bodies(entries: Seq<(u32, Seq<u8>)>, n: int) -> Seq<u8>
    decreases n,
{
    if n <= 0 {
        Seq::empty()
    } else {
        spec_sb_bodies(entries, n - 1) + entries[n - 1].1
    }
}

/// The serialized SuperBlob over `entries`, each a slot id with the
/// member's serialized bytes.
pub open spec fn spec_superblob_bytes(entries: Seq<(u32, Seq<u8>)>) -> Seq<u8> {
    be32(CSMAGIC_EMBEDDED_SIGNATURE) + be32(
        (12 + 8 * entries.len() + spec_sb_bodies_len(entries, entries.len() as int)) as u32,
    ) + be32(entries.len() as u32) + spec_sb_index(entries, entries.len() as int) + spec_sb_bodies(
        entries,
        entries.len() as int,
    )
}

/// Total length of the serialized SuperBlob.
pub open spec fn spec_superblob_len(entries: Seq<(u32, Seq<u8>)>) -> int {
    12 + 8 * entries.len() + spec_sb_bodies_len(entries, entries.len() as int)
}

/// The bodies' total length really is the sum of the lengths.
pub proof fn lemma_sb_bodies_len_agree(entries: Seq<(u32, Seq<u8>)>, n: int)
    requires
        n >= 0,
    ensures
        spec_sb_bodies(entries, n).len() == spec_sb_bodies_len(entries, n),
        spec_sb_bodies_len(entries, n) >= 0,
    decreases n,
{
    if n > 0 {
        lemma_sb_bodies_len_agree(entries, n - 1);
    }
}

/// The index is eight bytes per entry.
pub proof fn lemma_sb_index_len(entries: Seq<(u32, Seq<u8>)>, n: int)
    requires
        n >= 0,
    ensures
        spec_sb_index(entries, n).len() == 8 * n,
    decreases n,
{
    if n > 0 {
        lemma_sb_index_len(entries, n - 1);
        crate::bytes::lemma_u32_bytes_len(entries[n - 1].0, false);
        crate::bytes::lemma_u32_bytes_len(
            (12 + 8 * entries.len() + spec_sb_bodies_len(entries, n - 1)) as u32,
            false,
        );
    }
}

/// Accumulates SuperBlob members in canonical order.
pub struct EmbeddedSignatureBuilder {
    /// Serialized Code Directory.
    pub code_directory: Option<Vec<u8>>,
    /// Serialized special blobs with their slot ids, ascending.
    pub specials: Vec<(u32, Vec<u8>)>,
    /// Serialized alternative Code Directories.
    pub alternates: Vec<Vec<u8>>,
    /// Serialized CMS Signature wrapper blob.
    pub signature: Option<Vec<u8>>,
}

impl EmbeddedSignatureBuilder {
    /// The canonical entry list: Code Directory, special slots,
    /// alternates, Signature.
    pub open spec fn spec_entries(self) -> Seq<(u32, Seq<u8>)> {
        (match self.code_directory {
            Some(cd) => seq![(CSSLOT_CODEDIRECTORY, cd@)],
            None => Seq::empty(),
        }) + self.specials@.map_values(|p: (u32, Vec<u8>)| (p.0, p.1@)) + Seq::new(
            self.alternates@.len(),
            |i: int| ((CSSLOT_ALTERNATE_BASE + i) as u32, self.alternates@[i]@),
        ) + (match self.signature {
            Some(sig) => seq![(CSSLOT_SIGNATURE, sig@)],
            None => Seq::empty(),
        })
    }

    /// An empty builder.
    pub fn new() -> (r: EmbeddedSignatureBuilder)
        ensures
            r.code_directory is None,
            r.specials@.len() == 0,
            r.alternates@.len() == 0,
            r.signature is None,
    {
        EmbeddedSignatureBuilder {
            code_directory: None,
            specials: Vec::new(),
            alternates: Vec::new(),
            signature: None,
        }
    }

    /// Add a special blob under `slot_id`.
    ///
    /// Members must arrive in ascending slot order, which also rejects
    /// a duplicate slot.
    pub fn add_blob(&mut self, slot_id: u32, blob_bytes: Vec<u8>) -> (r: Result<
        (),
        SigningError,
    >)
        ensures
            match r {
                Ok(_) => {
                    &&& final(self).specials@ == old(self).specials@.push(
                        (slot_id, blob_bytes),
                    )
                    &&& (old(self).specials@.len() > 0 ==> slot_id > old(self).specials@.last().0)
                },
                Err(e) => {
                    &&& e is UnsupportedBinary
                    &&& *final(self) == *old(self)
                    &&& old(self).specials@.len() > 0 && slot_id <= old(self).specials@.last().0
                },
            },
            final(self).code_directory == old(self).code_directory,
            final(self).alternates == old(self).alternates,
            final(self).signature == old(self).signature,
    {
        if self.specials.len() > 0 {
            let last = self.specials[self.specials.len() - 1].0;
            if slot_id <= last {
                return Err(SigningError::UnsupportedBinary);
            }
        }
        self.specials.push((slot_id, blob_bytes));
        Ok(())
    }

    /// Install the primary Code Directory.
    pub fn add_code_directory(&mut self, cd_bytes: Vec<u8>)
        ensures
            final(self).code_directory == Some(cd_bytes),
            final(self).specials == old(self).specials,
            final(self).alternates == old(self).alternates,
            final(self).signature == old(self).signature,
    {
        self.code_directory = Some(cd_bytes);
    }

    /// Append an alternative Code Directory.
    pub fn add_alternative_code_directory(&mut self, cd_bytes: Vec<u8>)
        ensures
            final(self).alternates@ == old(self).alternates@.push(cd_bytes),
            final(self).specials == old(self).specials,
            final(self).code_directory == old(self).code_directory,
            final(self).signature == old(self).signature,
    {
        self.alternates.push(cd_bytes);
    }

    /// Install the CMS SignedData bytes, wrapped in a Signature blob.
    pub fn create_cms_signature(&mut self, cms_bytes: Vec<u8>)
        requires
            cms_bytes@.len() + 8 <= 0xffffffff,
        ensures
            match final(self).signature {
                Some(sig) => sig@ == spec_blob_bytes(CSMAGIC_BLOBWRAPPER, cms_bytes@),
                None => false,
            },
            final(self).specials == old(self).specials,
            final(self).code_directory == old(self).code_directory,
            final(self).alternates == old(self).alternates,
    {
        let blob = BlobData { magic: CSMAGIC_BLOBWRAPPER, payload: cms_bytes };
        self.signature = Some(blob.to_blob_bytes());
    }

    /// Install an empty Signature blob, for ad-hoc signatures.
    pub fn create_empty_cms_signature(&mut self)
        ensures
            match final(self).signature {
                Some(sig) => sig@ == spec_blob_bytes(CSMAGIC_BLOBWRAPPER, Seq::<u8>::empty()),
                None => false,
            },
            final(self).specials == old(self).specials,
            final(self).code_directory == old(self).code_directory,
            final(self).alternates == old(self).alternates,
    {
        let blob = BlobData { magic: CSMAGIC_BLOBWRAPPER, payload: Vec::new() };
        self.signature = Some(blob.to_blob_bytes());
    }

    /// Serialize the SuperBlob over the canonical entry list.
    #[verifier::rlimit(100)]
    pub fn create_superblob(&self) -> (r: Vec<u8>)
        requires
            spec_superblob_len(self.spec_entries()) <= 0xffffffff,
            self.spec_entries().len() <= 0xffff,
            forall|i: int|
                0 <= i < self.spec_entries().len() ==> (#[trigger] self.spec_entries()[i]).1.len()
                    <= 0xffffffff,
        ensures
            r@ == spec_superblob_bytes(self.spec_entries()),
            r@.len() == spec_superblob_len(self.spec_entries()),
    {
        let ghost entries = self.spec_entries();
        // Gather the members in canonical order.
        let mut list: Vec<(u32, Vec<u8>)> = Vec::new();
        match &self.code_directory {
            Some(cd) => {
                let copied = crate::bytes::clone_bytes(cd);
                let ghost cv = copied@;
                list.push((CSSLOT_CODEDIRECTORY, copied));
                proof {
                    assert(list@.map_values(|p: (u32, Vec<u8>)| (p.0, p.1@)) =~~= (match self.code_directory {
                        Some(cd2) => seq![(CSSLOT_CODEDIRECTORY, cd2@)],
                        None => Seq::<(u32, Seq<u8>)>::empty(),
                    }));
                }
            },
            None => {},
        }
        let mut i: usize = 0;
        while i < self.specials.len()
            invariant
                i <= self.specials@.len(),
                list@.map_values(|p: (u32, Vec<u8>)| (p.0, p.1@)) == (match self.code_directory {
                    Some(cd) => seq![(CSSLOT_CODEDIRECTORY, cd@)],
                    None => Seq::<(u32, Seq<u8>)>::empty(),
                }) + self.specials@.map_values(|p: (u32, Vec<u8>)| (p.0, p.1@)).take(i as int),
            decreases self.specials@.len() - i,
        {
            let ghost l0 = list@;
            let slot = self.specials[i].0;
            let copied = crate::bytes::clone_bytes(&self.specials[i].1);
            let ghost cv = copied@;
            list.push((slot, copied));
            proof {
                let f = |p: (u32, Vec<u8>)| (p.0, p.1@);
                assert(list@.map_values(|p: (u32, Vec<u8>)| (p.0, p.1@)) == list@.map_values(f));
                assert(l0.map_values(|p: (u32, Vec<u8>)| (p.0, p.1@)) == l0.map_values(f));
                assert(self.specials@.map_values(|p: (u32, Vec<u8>)| (p.0, p.1@))
                    == self.specials@.map_values(f));
                assert(list@ == l0.push((slot, copied)));
                assert(list@.map_values(f)[l0.len() as int] == (slot, cv));
                assert forall|k: int| 0 <= k < l0.len() implies list@.map_values(f)[k]
                    == l0.map_values(f)[k] by {
                    assert(list@[k] == l0[k]);
                }
                assert(list@.map_values(f) =~~= l0.map_values(f).push((slot, cv)));
                assert(list@.map_values(f) =~~= (match self.code_directory {
                    Some(cd) => seq![(CSSLOT_CODEDIRECTORY, cd@)],
                    None => Seq::<(u32, Seq<u8>)>::empty(),
                }) + self.specials@.map_values(f).take(i + 1));
            }
            i = i + 1;
        }
        proof {
            assert(self.specials@.map_values(|p: (u32, Vec<u8>)| (p.0, p.1@)).take(self.specials@.len() as int)
                =~= self.specials@.map_values(|p: (u32, Vec<u8>)| (p.0, p.1@)));
            assert(self.alternates@.len() <= entries.len());
        }
        let mut i: usize = 0;
        while i < self.alternates.len()
            invariant
                i <= self.alternates@.len(),
                self.alternates@.len() <= 0xffff,
                list@.map_values(|p: (u32, Vec<u8>)| (p.0, p.1@)) == (match self.code_directory {
                    Some(cd) => seq![(CSSLOT_CODEDIRECTORY, cd@)],
                    None => Seq::<(u32, Seq<u8>)>::empty(),
                }) + self.specials@.map_values(|p: (u32, Vec<u8>)| (p.0, p.1@)) + Seq::new(
                    i as nat,
                    |j: int| ((CSSLOT_ALTERNATE_BASE + j) as u32, self.alternates@[j]@),
                ),
            decreases self.alternates@.len() - i,
        {
            let ghost l0 = list@;
            let copied = crate::bytes::clone_bytes(&self.alternates[i]);
            let ghost cv = copied@;
            let slot: u32 = CSSLOT_ALTERNATE_BASE + i as u32;
            list.push((slot, copied));
            proof {
                let f = |p: (u32, Vec<u8>)| (p.0, p.1@);
                assert(list@.map_values(|p: (u32, Vec<u8>)| (p.0, p.1@)) == list@.map_values(f));
                assert(l0.map_values(|p: (u32, Vec<u8>)| (p.0, p.1@)) == l0.map_values(f));
                assert(self.specials@.map_values(|p: (u32, Vec<u8>)| (p.0, p.1@))
                    == self.specials@.map_values(f));
                assert(list@ == l0.push((slot, copied)));
                assert(list@.map_values(f)[l0.len() as int] == (slot, cv));
                assert forall|k: int| 0 <= k < l0.len() implies list@.map_values(f)[k]
                    == l0.map_values(f)[k] by {
                    assert(list@[k] == l0[k]);
                }
                assert(list@.map_values(f) =~~= l0.map_values(f).push((slot, cv)));
                assert(list@.map_values(f) =~~= (match self.code_directory {
                    Some(cd) => seq![(CSSLOT_CODEDIRECTORY, cd@)],
                    None => Seq::<(u32, Seq<u8>)>::empty(),
                }) + self.specials@.map_values(f) + Seq::new(
                    (i + 1) as nat,
                    |j: int| ((CSSLOT_ALTERNATE_BASE + j) as u32, self.alternates@[j]@),
                ));
            }
            i = i + 1;
        }
        match &self.signature {
            Some(sig) => {
                let ghost l0 = list@;
                let copied = crate::bytes::clone_bytes(sig);
                let ghost cv = copied@;
                list.push((CSSLOT_SIGNATURE, copied));
                proof {
                    let f = |p: (u32, Vec<u8>)| (p.0, p.1@);
                    assert(list@.map_values(|p: (u32, Vec<u8>)| (p.0, p.1@)) == list@.map_values(
                        f,
                    ));
                    assert(l0.map_values(|p: (u32, Vec<u8>)| (p.0, p.1@)) == l0.map_values(f));
                    assert(list@ == l0.push((CSSLOT_SIGNATURE, copied)));
                    assert(list@.map_values(f)[l0.len() as int] == (CSSLOT_SIGNATURE, cv));
                    assert forall|k: int| 0 <= k < l0.len() implies list@.map_values(f)[k]
                        == l0.map_values(f)[k] by {
                        assert(list@[k] == l0[k]);
                    }
                    assert(list@.map_values(f) =~~= l0.map_values(f).push(
                        (CSSLOT_SIGNATURE, cv),
                    ));
                }
            },
            None => {},
        }
        proof {
            assert(list@.map_values(|p: (u32, Vec<u8>)| (p.0, p.1@)) =~~= entries);
            lemma_sb_bodies_len_agree(entries, entries.len() as int);
        }

        let n = list.len();
        let mut total: usize = 12 + 8 * n;
        let mut i: usize = 0;
        while i < n
            invariant
                n == list@.len(),
                i <= n,
                entries == list@.map_values(|p: (u32, Vec<u8>)| (p.0, p.1@)),
                spec_superblob_len(entries) <= 0xffffffff,
                total == 12 + 8 * entries.len() + spec_sb_bodies_len(entries, i as int),
            decreases n - i,
        {
            proof {
                lemma_sb_bodies_len_monotone(entries, i + 1, entries.len() as int);
                lemma_sb_bodies_len_agree(entries, i as int);
            }
            total = total + list[i].1.len();
            i = i + 1;
        }

        let mut out: Vec<u8> = Vec::new();
        push_u32(&mut out, CSMAGIC_EMBEDDED_SIGNATURE, false);
        push_u32(&mut out, total as u32, false);
        push_u32(&mut out, n as u32, false);
        let ghost hdr = out@;
        proof {
            assert(hdr =~= be32(CSMAGIC_EMBEDDED_SIGNATURE) + be32(
                (12 + 8 * entries.len() + spec_sb_bodies_len(entries, entries.len() as int)) as u32,
            ) + be32(entries.len() as u32));
        }

        let mut off: usize = 12 + 8 * n;
        let mut i: usize = 0;
        while i < n
            invariant
                n == list@.len(),
                i <= n,
                entries == list@.map_values(|p: (u32, Vec<u8>)| (p.0, p.1@)),
                spec_superblob_len(entries) <= 0xffffffff,
                off == 12 + 8 * entries.len() + spec_sb_bodies_len(entries, i as int),
                out@ == hdr + spec_sb_index(entries, i as int),
            decreases n - i,
        {
            proof {
                lemma_sb_bodies_len_monotone(entries, i + 1, entries.len() as int);
                lemma_sb_bodies_len_agree(entries, i as int);
            }
            push_u32(&mut out, list[i].0, false);
            push_u32(&mut out, off as u32, false);
            proof {
                assert(out@ =~= hdr + spec_sb_index(entries, i + 1));
            }
            off = off + list[i].1.len();
            i = i + 1;
        }
        let ghost mid = out@;
        let mut i: usize = 0;
        while i < n
            invariant
                n == list@.len(),
                i <= n,
                entries == list@.map_values(|p: (u32, Vec<u8>)| (p.0, p.1@)),
                out@ == mid + spec_sb_bodies(entries, i as int),
            decreases n - i,
        {
            push_bytes(&mut out, &list[i].1);
            proof {
                assert(out@ =~= mid + spec_sb_bodies(entries, i + 1));
            }
            i = i + 1;
        }
        proof {
            assert(out@ =~= spec_superblob_bytes(entries));
            lemma_sb_index_len(entries, entries.len() as int);
            lemma_sb_bodies_len_agree(entries, entries.len() as int);
            crate::bytes::lemma_u32_bytes_len(CSMAGIC_EMBEDDED_SIGNATURE, false);
            crate::bytes::lemma_u32_bytes_len(
                (12 + 8 * entries.len() + spec_sb_bodies_len(entries, entries.len() as int)) as u32,
                false,
            );
            crate::bytes::lemma_u32_bytes_len(entries.len() as u32, false);
        }
        out
    }
}

/// More members never shrink the bodies' length.
pub proof fn lemma_sb_bodies_len_monotone(entries: Seq<(u32, Seq<u8>)>, a: int, b: int)
    requires
        0 <= a <= b,
    ensures
        spec_sb_bodies_len(entries, a) <= spec_sb_bodies_len(entries, b),
    decreases b - a,
{
    if a < b {
        lemma_sb_bodies_len_monotone(entries, a, b - 1);
        lemma_sb_bodies_len_agree(entries, b - 1);
    }
}

} // verus!
// Decomposition of body lengths over concatenated entry lists.

verus! {

/// Body lengths over the first `n` entries agree when the entries do.
pub proof fn lemma_sb_bodies_len_prefix(s: Seq<(u32, Seq<u8>)>, t: Seq<(u32, Seq<u8>)>, n: int)
    requires
        forall|i: int| 0 <= i < n ==> #[trigger] s[i] == t[i],
    ensures
        spec_sb_bodies_len(s, n) == spec_sb_bodies_len(t, n),
    decreases n,
{
    if n > 0 {
        lemma_sb_bodies_len_prefix(s, t, n - 1);
    }
}

/// Body length of a concatenation is the sum of the parts.
pub proof fn lemma_sb_bodies_len_append(a: Seq<(u32, Seq<u8>)>, b: Seq<(u32, Seq<u8>)>)
    ensures
        spec_sb_bodies_len(a + b, (a + b).len() as int) == spec_sb_bodies_len(a, a.len() as int)
            + spec_sb_bodies_len(b, b.len() as int),
    decreases b.len(),
{
    if b.len() == 0 {
        assert(a + b =~= a);
        lemma_sb_bodies_len_prefix(a + b, a, a.len() as int);
    } else {
        lemma_sb_bodies_len_append(a, b.drop_last());
        lemma_sb_bodies_len_prefix(a + b, a + b.drop_last(), (a + b).len() - 1);
        assert((a + b).last() == b.last());
        assert(spec_sb_bodies_len(a + b, (a + b).len() as int) == spec_sb_bodies_len(
            a + b,
            (a + b).len() - 1,
        ) + b.last().1.len());
        lemma_sb_bodies_len_prefix(b, b.drop_last(), b.len() - 1);
        assert(spec_sb_bodies_len(b, b.len() as int) == spec_sb_bodies_len(b, b.len() - 1)
            + b[b.len() - 1].1.len());
    }
}

} // verus!
// Body-length sums over the builder's concrete fields.

verus! {

/// Sum of the byte lengths of slot/bytes pairs.
pub open spec fn spec_pairs_bodies_len(s: Seq<(u32, Vec<u8>)>, n: int) -> int
    decreases n,
{
    if n <= 0 {
        0
    } else {
        spec_pairs_bodies_len(s, n - 1) + s[n - 1].1@.len()
    }
}

/// Sum of the byte lengths of a list of byte vectors.
pub open spec fn spec_vecs_bodies_len(s: Seq<Vec<u8>>, n: int) -> int
    decreases n,
{
    if n <= 0 {
        0
    } else {
        spec_vecs_bodies_len(s, n - 1) + s[n - 1]@.len()
    }
}

/// The mapped pair entries have the pairs' body lengths.
pub proof fn lemma_pairs_bodies(s: Seq<(u32, Vec<u8>)>, n: int)
    requires
        0 <= n <= s.len(),
    ensures
        spec_sb_bodies_len(s.map_values(|p: (u32, Vec<u8>)| (p.0, p.1@)), n)
            == spec_pairs_bodies_len(s, n),
    decreases n,
{
    if n > 0 {
        lemma_pairs_bodies(s, n - 1);
        assert(s.map_values(|p: (u32, Vec<u8>)| (p.0, p.1@))[n - 1].1 == s[n - 1].1@);
    }
}

/// The alternate entries have the alternates' body lengths.
pub proof fn lemma_alt_bodies(s: Seq<Vec<u8>>, base: int, n: int)
    requires
        0 <= n <= s.len(),
    ensures
        spec_sb_bodies_len(
            Seq::new(s.len(), |i: int| ((base + i) as u32, s[i]@)),
            n,
        ) == spec_vecs_bodies_len(s, n),
    decreases n,
{
    if n > 0 {
        lemma_alt_bodies(s, base, n - 1);
        assert(Seq::new(s.len(), |i: int| ((base + i) as u32, s[i]@))[n - 1].1 == s[n - 1]@);
    }
}

impl EmbeddedSignatureBuilder {
    /// The total SuperBlob length decomposed over the builder fields.
    pub proof fn lemma_entries_len(self)
        ensures
            spec_superblob_len(self.spec_entries()) == 12 + 8 * self.spec_entries().len() + (
            match self.code_directory {
                Some(cd) => cd@.len() as int,
                None => 0int,
            }) + spec_pairs_bodies_len(self.specials@, self.specials@.len() as int)
                + spec_vecs_bodies_len(self.alternates@, self.alternates@.len() as int) + (
            match self.signature {
                Some(sig) => sig@.len() as int,
                None => 0int,
            }),
    {
        let cdp: Seq<(u32, Seq<u8>)> = match self.code_directory {
            Some(cd) => seq![(CSSLOT_CODEDIRECTORY, cd@)],
            None => Seq::empty(),
        };
        let spp = self.specials@.map_values(|p: (u32, Vec<u8>)| (p.0, p.1@));
        let alp = Seq::new(
            self.alternates@.len(),
            |i: int| ((CSSLOT_ALTERNATE_BASE + i) as u32, self.alternates@[i]@),
        );
        let sgp: Seq<(u32, Seq<u8>)> = match self.signature {
            Some(sig) => seq![(CSSLOT_SIGNATURE, sig@)],
            None => Seq::empty(),
        };
        assert(self.spec_entries() == cdp + spp + alp + sgp);
        lemma_sb_bodies_len_append(cdp + spp + alp, sgp);
        lemma_sb_bodies_len_append(cdp + spp, alp);
        lemma_sb_bodies_len_append(cdp, spp);
        assert((cdp + spp + alp) + sgp =~= self.spec_entries());
        assert((cdp + spp) + alp =~= cdp + spp + alp);
        lemma_pairs_bodies(self.specials@, self.specials@.len() as int);
        lemma_alt_bodies(
            self.alternates@,
            CSSLOT_ALTERNATE_BASE as int,
            self.alternates@.len() as int,
        );
        assert(spec_sb_bodies_len(cdp, 0) == 0);
        assert(spec_sb_bodies_len(sgp, 0) == 0);
        match self.code_directory {
            Some(cd) => {
                assert(cdp[0].1 == cd@);
                assert(spec_sb_bodies_len(cdp, 1) == spec_sb_bodies_len(cdp, 0) + cdp[0].1.len());
                assert(spec_sb_bodies_len(cdp, 1) == cd@.len());
            },
            None => {},
        }
        match self.signature {
            Some(sig) => {
                assert(sgp[0].1 == sig@);
                assert(spec_sb_bodies_len(sgp, 1) == spec_sb_bodies_len(sgp, 0) + sgp[0].1.len());
                assert(spec_sb_bodies_len(sgp, 1) == sig@.len());
            },
            None => {},
        }
    }
}

} // verus!
