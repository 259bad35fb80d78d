//! Global properties of produced slices, stated once over the
//! rewriter's result predicate.

use vstd::prelude::*;

use crate::macho::{find_linkedit_rec, MachOImage};
use crate::rewrite::{
    spec_new_linkedit_filesize, spec_new_linkedit_vmsize, spec_rewrite_ok, spec_sig_offset,
};

verus! {

/// Alignment of every produced slice: the signature starts on a
/// 16-byte boundary, `__LINKEDIT`'s vm size is a multiple of 16 KiB
/// and covers its file size, and the file ends with the signature.
pub proof fn lemma_signature_alignment(
    img: MachOImage,
    data: Seq<u8>,
    sig: Seq<u8>,
    out: Seq<u8>,
)
    requires
        spec_rewrite_ok(img, data, sig, out),
    ensures
        ({
            let k = find_linkedit_rec(img.segments@, 0)->Some_0;
            let le = img.segments@[k];
            let cl = img.spec_code_limit(k);
            let so = spec_sig_offset(cl);
            let nfs = spec_new_linkedit_filesize(le.fileoff as int, cl, sig.len() as int);
            let nvs = spec_new_linkedit_vmsize(nfs);
            &&& so % 16 == 0
            &&& nvs % 16384 == 0
            &&& nvs >= nfs
            &&& out.len() == so + sig.len()
        }),
{
    reveal(crate::rewrite::spec_rewrite_ok);
}

/// The load-command invariant of every produced slice: the rewritten
/// signature command's data ends exactly at the end of the rewritten
/// `__LINKEDIT`, and its fields are the ones written into the output
/// bytes.
pub proof fn lemma_load_command_invariant(
    img: MachOImage,
    data: Seq<u8>,
    sig: Seq<u8>,
    out: Seq<u8>,
)
    requires
        spec_rewrite_ok(img, data, sig, out),
    ensures
        ({
            let k = find_linkedit_rec(img.segments@, 0)->Some_0;
            let le = img.segments@[k];
            let cl = img.spec_code_limit(k);
            let so = spec_sig_offset(cl);
            let nfs = spec_new_linkedit_filesize(le.fileoff as int, cl, sig.len() as int);
            let nvs = spec_new_linkedit_vmsize(nfs);
            &&& so + sig.len() == le.fileoff + nfs
            &&& crate::rewrite::spec_sig_command_patched(img, sig.len() as int, out, so)
            &&& crate::rewrite::spec_linkedit_command_patched(img, out, k, nfs, nvs)
        }),
{
    reveal(crate::rewrite::spec_rewrite_ok);
}

/// Digest coverage: every code page digest in a built Code Directory
/// is the digest of exactly its page, the final page being the
/// remainder up to the code limit. This restates what
/// [`crate::signing::MachOSigner::create_code_directory`] ensures for
/// each page index.
pub proof fn lemma_digest_coverage(
    cd: crate::code_directory::CodeDirectoryBlob,
    data: Seq<u8>,
    cl: int,
    i: int,
)
    requires
        cd.code_digests@.len() == crate::digest::spec_page_count(cl, 4096),
        forall|j: int|
            0 <= j < cd.code_digests@.len() ==> (#[trigger] cd.code_digests@[j])@
                == crate::digest::digest_of(
                cd.digest_kind,
                crate::digest::spec_page_chunk(data, cl, 4096, j),
            ),
        0 <= i < cd.code_digests@.len(),
    ensures
        cd.code_digests@[i]@ == crate::digest::digest_of(
            cd.digest_kind,
            data.subrange(
                i * 4096,
                if (i + 1) * 4096 <= cl {
                    (i + 1) * 4096
                } else {
                    cl
                },
            ),
        ),
{
}

} // verus!
