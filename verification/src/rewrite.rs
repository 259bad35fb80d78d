//! Mach-O rewriter: produce a new image with new signature bytes.
//!
//! Given a parsed image and the signature blob, the rewriter emits a
//! complete Mach-O buffer in which the signature occupies a 16-byte
//! aligned reservation at the end of `__LINKEDIT`, the segment's sizes
//! and the `LC_CODE_SIGNATURE` command are updated (or the command is
//! freshly appended), and all other bytes are carried over.

use vstd::prelude::*;

use crate::bytes::{
    overwrite_u32, overwrite_u64, push_bytes, push_slice_range, push_u32, push_zeros, u32_bytes,
    u64_bytes,
};
use crate::errors::SigningError;
use crate::macho::{
    find_linkedit_rec, name_matches, pagezero_name, MachOImage, LC_CODE_SIGNATURE,
    SIZEOF_LINKEDIT_DATA_COMMAND,
};
use crate::round_up;

verus! {

/// File offset at which the signature starts: the code limit padded up
/// to the 16-byte boundary Apple's tooling uses.
pub open spec fn spec_sig_offset(code_limit: int) -> int {
    round_up(code_limit, 16)
}

/// `__LINKEDIT`'s new file size: its prefix, the alignment pad and the
/// signature bytes.
pub open spec fn spec_new_linkedit_filesize(le_fileoff: int, code_limit: int, sig_len: int) -> int {
    spec_sig_offset(code_limit) - le_fileoff + sig_len
}

/// `__LINKEDIT`'s new vm size: the file size rounded up to 16 KiB.
pub open spec fn spec_new_linkedit_vmsize(filesize: int) -> int {
    round_up(filesize, 16384)
}

/// The signature load command of the output carries the new offset and
/// size; when the input had none, the header counts one more command
/// and a fresh command sits right after the original table.
#[verifier::opaque]
pub open spec fn spec_sig_command_patched(
    img: MachOImage,
    sig_len: int,
    out: Seq<u8>,
    so: int,
) -> bool {
    match img.code_signature {
        Some(cs) => {
            &&& out.subrange(cs.cmd_offset + 8, cs.cmd_offset + 12) == u32_bytes(
                so as u32,
                img.little,
            )
            &&& out.subrange(cs.cmd_offset + 12, cs.cmd_offset + 16) == u32_bytes(
                sig_len as u32,
                img.little,
            )
        },
        None => {
            let ce = img.cmds_end();
            &&& out.subrange(16, 20) == u32_bytes((img.header.ncmds + 1) as u32, img.little)
            &&& out.subrange(20, 24) == u32_bytes((img.header.sizeofcmds + 16) as u32, img.little)
            &&& out.subrange(ce, ce + 4) == u32_bytes(LC_CODE_SIGNATURE, img.little)
            &&& out.subrange(ce + 4, ce + 8) == u32_bytes(SIZEOF_LINKEDIT_DATA_COMMAND, img.little)
            &&& out.subrange(ce + 8, ce + 12) == u32_bytes(so as u32, img.little)
            &&& out.subrange(ce + 12, ce + 16) == u32_bytes(sig_len as u32, img.little)
        },
    }
}

/// The `__LINKEDIT` segment command of the output carries the new
/// file size and vm size.
#[verifier::opaque]
pub open spec fn spec_linkedit_command_patched(
    img: MachOImage,
    out: Seq<u8>,
    k: int,
    nfs: int,
    nvs: int,
) -> bool {
    let s = img.segments@[k];
    if s.is64 {
        &&& out.subrange(s.cmd_offset + 32, s.cmd_offset + 40) == u64_bytes(nvs as u64, img.little)
        &&& out.subrange(s.cmd_offset + 48, s.cmd_offset + 56) == u64_bytes(nfs as u64, img.little)
    } else {
        &&& out.subrange(s.cmd_offset + 28, s.cmd_offset + 32) == u32_bytes(nvs as u32, img.little)
        &&& out.subrange(s.cmd_offset + 36, s.cmd_offset + 40) == u32_bytes(nfs as u32, img.little)
    }
}

/// Everything the rewriter promises of a successful output buffer.
#[verifier::opaque]
pub open spec fn spec_rewrite_ok(
    img: MachOImage,
    data: Seq<u8>,
    sig: Seq<u8>,
    out: Seq<u8>,
) -> bool {
    match find_linkedit_rec(img.segments@, 0) {
        None => false,
        Some(k) => {
            let le = img.segments@[k];
            let cl = img.spec_code_limit(k);
            let so = spec_sig_offset(cl);
            let nfs = spec_new_linkedit_filesize(le.fileoff as int, cl, sig.len() as int);
            let nvs = spec_new_linkedit_vmsize(nfs);
            &&& img.spec_signable()
            &&& out.len() == so + sig.len()
            &&& so % 16 == 0
            &&& cl <= so < cl + 16
            &&& out.subrange(so, out.len() as int) == sig
            &&& out.subrange(cl, so) == Seq::new((so - cl) as nat, |i: int| 0u8)
            &&& out.subrange(le.fileoff as int, cl) == data.subrange(le.fileoff as int, cl)
            &&& so + sig.len() == le.fileoff + nfs
            &&& nvs % 16384 == 0
            &&& nvs >= nfs
            &&& spec_sig_command_patched(img, sig.len() as int, out, so)
            &&& spec_linkedit_command_patched(img, out, k, nfs, nvs)
        },
    }
}

/// A prefix's subranges survive appending.
proof fn lemma_sub_of_prefix(a: Seq<u8>, b: Seq<u8>, lo: int, hi: int)
    requires
        0 <= lo <= hi <= a.len(),
        a.len() <= b.len(),
        b.subrange(0, a.len() as int) == a,
    ensures
        b.subrange(lo, hi) == a.subrange(lo, hi),
        b.subrange(lo, hi) == a.subrange(lo, hi),
{
    assert forall|i: int| 0 <= i < a.len() implies b[i] == a[i] by {
        assert(b.subrange(0, a.len() as int)[i] == b[i]);
    }
    assert(b.subrange(lo, hi) =~= a.subrange(lo, hi));
}

/// Appending keeps an established prefix.
proof fn lemma_concat_prefix(old_seq: Seq<u8>, add: Seq<u8>, head: Seq<u8>)
    requires
        head.len() <= old_seq.len(),
        old_seq.subrange(0, head.len() as int) == head,
    ensures
        (old_seq + add).subrange(0, head.len() as int) == head,
{
    assert forall|i: int| 0 <= i < head.len() implies (old_seq + add)[i] == head[i] by {
        assert(old_seq.subrange(0, head.len() as int)[i] == old_seq[i]);
    }
    assert((old_seq + add).subrange(0, head.len() as int) =~= head);
}

/// Copy the header and load commands and patch them for the new
/// signature location.
///
/// On success the buffer holds `data[0..cmds_end]` with the header,
/// the signature load command (rewritten or appended) and the
/// `__LINKEDIT` segment command updated as [`spec_sig_command_patched`]
/// and [`spec_linkedit_command_patched`] state.
#[verifier::rlimit(100)]
fn patch_commands(
    img: &MachOImage,
    data: &[u8],
    k: usize,
    sig_offset: usize,
    sig_len: usize,
    new_filesize: usize,
    new_vmsize: usize,
) -> (r: Result<Vec<u8>, SigningError>)
    requires
        0 <= k < img.segments@.len(),
        img.header_size() + img.header.sizeofcmds <= data@.len(),
        img.segments@[k as int].cmd_offset + crate::macho::spec_segment_command_size(
            img.segments@[k as int].is64,
        ) <= img.cmds_end(),
        match img.code_signature {
            Some(cs) => cs.cmd_offset + 16 <= img.cmds_end(),
            None => true,
        },
        img.header_size() == crate::macho::spec_header_size(img.is64),
    ensures
        match r {
            Ok(h) => {
                &&& h@.len() == img.cmds_end() + (if img.code_signature is Some {
                    0int
                } else {
                    16int
                })
                &&& h@.len() <= data@.len() + 16
                &&& spec_sig_command_patched(*img, sig_len as int, h@, sig_offset as int)
                &&& spec_linkedit_command_patched(
                    *img,
                    h@,
                    k as int,
                    new_filesize as int,
                    new_vmsize as int,
                )
            },
            Err(e) => e is MachOWrite,
        },
{
    proof {
        reveal(spec_sig_command_patched);
        reveal(spec_linkedit_command_patched);
    }
    let le_is64: bool = img.segments[k].is64;
    let le_cmd_offset: usize = img.segments[k].cmd_offset;
    let le_cmd_size: usize = if le_is64 {
        72
    } else {
        56
    };
    let little: bool = img.little;
    let data_len: usize = data.len();
    let header_size: usize = if img.is64 {
        32
    } else {
        28
    };
    let cmds_end: usize = header_size + img.header.sizeofcmds as usize;

    let mut out: Vec<u8> = Vec::new();
    push_slice_range(&mut out, data, 0, cmds_end);

    match img.code_signature {
        Some(cs) => {
            // The two rewritten commands must not share bytes.
            if !(cs.cmd_offset + 16 <= le_cmd_offset || le_cmd_offset + le_cmd_size
                <= cs.cmd_offset) {
                return Err(SigningError::MachOWrite(String::new()));
            }
            overwrite_u32(&mut out, cs.cmd_offset + 8, sig_offset as u32, little);
            let ghost s1 = out@;
            overwrite_u32(&mut out, cs.cmd_offset + 12, sig_len as u32, little);
            let ghost s2 = out@;
            proof {
                assert(s2.subrange(cs.cmd_offset + 8, cs.cmd_offset + 12) =~= s1.subrange(
                    cs.cmd_offset + 8,
                    cs.cmd_offset + 12,
                ));
            }
            if le_is64 {
                overwrite_u64(&mut out, le_cmd_offset + 32, new_vmsize as u64, little);
                let ghost s3 = out@;
                proof {
                    assert(s3.subrange(cs.cmd_offset + 8, cs.cmd_offset + 12) =~= s2.subrange(
                        cs.cmd_offset + 8,
                        cs.cmd_offset + 12,
                    ));
                    assert(s3.subrange(cs.cmd_offset + 12, cs.cmd_offset + 16) =~= s2.subrange(
                        cs.cmd_offset + 12,
                        cs.cmd_offset + 16,
                    ));
                }
                overwrite_u64(&mut out, le_cmd_offset + 48, new_filesize as u64, little);
                proof {
                    assert(out@.subrange(cs.cmd_offset + 8, cs.cmd_offset + 12) =~= s3.subrange(
                        cs.cmd_offset + 8,
                        cs.cmd_offset + 12,
                    ));
                    assert(out@.subrange(cs.cmd_offset + 12, cs.cmd_offset + 16) =~= s3.subrange(
                        cs.cmd_offset + 12,
                        cs.cmd_offset + 16,
                    ));
                    assert(out@.subrange(le_cmd_offset + 32, le_cmd_offset + 40) =~= s3.subrange(
                        le_cmd_offset + 32,
                        le_cmd_offset + 40,
                    ));
                }
            } else {
                overwrite_u32(&mut out, le_cmd_offset + 28, new_vmsize as u32, little);
                let ghost s3 = out@;
                proof {
                    assert(s3.subrange(cs.cmd_offset + 8, cs.cmd_offset + 12) =~= s2.subrange(
                        cs.cmd_offset + 8,
                        cs.cmd_offset + 12,
                    ));
                    assert(s3.subrange(cs.cmd_offset + 12, cs.cmd_offset + 16) =~= s2.subrange(
                        cs.cmd_offset + 12,
                        cs.cmd_offset + 16,
                    ));
                }
                overwrite_u32(&mut out, le_cmd_offset + 36, new_filesize as u32, little);
                proof {
                    assert(out@.subrange(cs.cmd_offset + 8, cs.cmd_offset + 12) =~= s3.subrange(
                        cs.cmd_offset + 8,
                        cs.cmd_offset + 12,
                    ));
                    assert(out@.subrange(cs.cmd_offset + 12, cs.cmd_offset + 16) =~= s3.subrange(
                        cs.cmd_offset + 12,
                        cs.cmd_offset + 16,
                    ));
                    assert(out@.subrange(le_cmd_offset + 28, le_cmd_offset + 32) =~= s3.subrange(
                        le_cmd_offset + 28,
                        le_cmd_offset + 32,
                    ));
                }
            }
            Ok(out)
        },
        None => {
            if img.header.ncmds == 0xffffffff || img.header.sizeofcmds > 0xffffffff - 16 {
                return Err(SigningError::MachOWrite(String::new()));
            }
            if le_cmd_offset < 24 {
                return Err(SigningError::MachOWrite(String::new()));
            }
            if data_len < 16 || cmds_end > data_len - 16 {
                return Err(SigningError::MachOWrite(String::new()));
            }
            // The room for the appended command must be unused.
            let stop: usize = cmds_end + 16;
            let mut z: usize = cmds_end;
            while z < stop
                invariant
                    stop == cmds_end + 16,
                    cmds_end + 16 <= data@.len(),
                    cmds_end <= z,
                decreases stop - z,
            {
                if data[z] != 0 {
                    return Err(SigningError::MachOWrite(String::new()));
                }
                z = z + 1;
            }
            overwrite_u32(&mut out, 16, img.header.ncmds + 1, little);
            let ghost s1 = out@;
            overwrite_u32(&mut out, 20, img.header.sizeofcmds + 16, little);
            let ghost s2 = out@;
            proof {
                assert(s2.subrange(16, 20) =~= s1.subrange(16, 20));
            }
            if le_is64 {
                overwrite_u64(&mut out, le_cmd_offset + 32, new_vmsize as u64, little);
                let ghost s3 = out@;
                proof {
                    assert(s3.subrange(16, 20) =~= s2.subrange(16, 20));
                    assert(s3.subrange(20, 24) =~= s2.subrange(20, 24));
                }
                overwrite_u64(&mut out, le_cmd_offset + 48, new_filesize as u64, little);
                proof {
                    assert(out@.subrange(16, 20) =~= s3.subrange(16, 20));
                    assert(out@.subrange(20, 24) =~= s3.subrange(20, 24));
                    assert(out@.subrange(le_cmd_offset + 32, le_cmd_offset + 40) =~= s3.subrange(
                        le_cmd_offset + 32,
                        le_cmd_offset + 40,
                    ));
                }
            } else {
                overwrite_u32(&mut out, le_cmd_offset + 28, new_vmsize as u32, little);
                let ghost s3 = out@;
                proof {
                    assert(s3.subrange(16, 20) =~= s2.subrange(16, 20));
                    assert(s3.subrange(20, 24) =~= s2.subrange(20, 24));
                }
                overwrite_u32(&mut out, le_cmd_offset + 36, new_filesize as u32, little);
                proof {
                    assert(out@.subrange(16, 20) =~= s3.subrange(16, 20));
                    assert(out@.subrange(20, 24) =~= s3.subrange(20, 24));
                    assert(out@.subrange(le_cmd_offset + 28, le_cmd_offset + 32) =~= s3.subrange(
                        le_cmd_offset + 28,
                        le_cmd_offset + 32,
                    ));
                }
            }
            let ghost s4 = out@;
            let ghost ce = img.cmds_end();
            push_u32(&mut out, LC_CODE_SIGNATURE, little);
            push_u32(&mut out, SIZEOF_LINKEDIT_DATA_COMMAND, little);
            push_u32(&mut out, sig_offset as u32, little);
            push_u32(&mut out, sig_len as u32, little);
            proof {
                crate::bytes::lemma_u32_bytes_len(LC_CODE_SIGNATURE, little);
                crate::bytes::lemma_u32_bytes_len(SIZEOF_LINKEDIT_DATA_COMMAND, little);
                crate::bytes::lemma_u32_bytes_len(sig_offset as u32, little);
                crate::bytes::lemma_u32_bytes_len(sig_len as u32, little);
                assert(s4.len() == ce);
                let fin = out@;
                assert(fin =~= s4 + u32_bytes(LC_CODE_SIGNATURE, little) + u32_bytes(
                    SIZEOF_LINKEDIT_DATA_COMMAND,
                    little,
                ) + u32_bytes(sig_offset as u32, little) + u32_bytes(sig_len as u32, little));
                assert(fin.subrange(ce, ce + 4) =~= u32_bytes(LC_CODE_SIGNATURE, little));
                assert(fin.subrange(ce + 4, ce + 8) =~= u32_bytes(
                    SIZEOF_LINKEDIT_DATA_COMMAND,
                    little,
                ));
                assert(fin.subrange(ce + 8, ce + 12) =~= u32_bytes(sig_offset as u32, little));
                assert(fin.subrange(ce + 12, ce + 16) =~= u32_bytes(sig_len as u32, little));
                assert(fin.subrange(16, 20) =~= s4.subrange(16, 20));
                assert(fin.subrange(20, 24) =~= s4.subrange(20, 24));
                if img.segments@[k as int].is64 {
                    assert(fin.subrange(le_cmd_offset + 32, le_cmd_offset + 40) =~= s4.subrange(
                        le_cmd_offset + 32,
                        le_cmd_offset + 40,
                    ));
                    assert(fin.subrange(le_cmd_offset + 48, le_cmd_offset + 56) =~= s4.subrange(
                        le_cmd_offset + 48,
                        le_cmd_offset + 56,
                    ));
                } else {
                    assert(fin.subrange(le_cmd_offset + 28, le_cmd_offset + 32) =~= s4.subrange(
                        le_cmd_offset + 28,
                        le_cmd_offset + 32,
                    ));
                    assert(fin.subrange(le_cmd_offset + 36, le_cmd_offset + 40) =~= s4.subrange(
                        le_cmd_offset + 36,
                        le_cmd_offset + 40,
                    ));
                }
            }
            Ok(out)
        },
    }
}

/// Derive a new Mach-O buffer carrying `signature_data` at the end of
/// `__LINKEDIT`.
///
/// On success the output satisfies [`spec_rewrite_ok`]: the signature
/// starts 16-byte aligned at the code limit, preceded by NUL padding,
/// the `__LINKEDIT` sizes and the signature load command are rewritten,
/// and the segment bytes before the signature are carried over.
/// `MachOWrite` reports layout corruption: a cursor that overran a
/// segment, a value that does not fit its field, or, when a fresh
/// `LC_CODE_SIGNATURE` must be appended, room after the load commands
/// that is not unused.
#[verifier::rlimit(100)]
pub fn create_macho_with_signature(
    img: &MachOImage,
    data: &[u8],
    signature_data: &[u8],
) -> (r: Result<Vec<u8>, SigningError>)
    requires
        img.wf(data@),
        data@.len() + signature_data@.len() + 32768 <= usize::MAX,
    ensures
        match r {
            Ok(out) => spec_rewrite_ok(*img, data@, signature_data@, out@),
            Err(e) => {
                &&& (e is MissingLinkedit || e is UnsupportedBinary || e is MachOWrite)
                &&& ((e is MissingLinkedit || e is UnsupportedBinary) <==> !img.spec_signable())
                &&& (e is MissingLinkedit <==> find_linkedit_rec(img.segments@, 0) is None)
            },
        },
{
    let (k, code_limit_u64) = match img.code_limit_offset() {
        Ok(v) => v,
        Err(e) => {
            return Err(e);
        },
    };
    let data_len: usize = data.len();
    let sig_len: usize = signature_data.len();
    let code_limit: usize = code_limit_u64 as usize;
    let le_fileoff: usize = img.segments[k].fileoff as usize;
    let little: bool = img.little;

    let rem: usize = code_limit % 16;
    let pad: usize = if rem == 0 {
        0
    } else {
        16 - rem
    };
    let sig_offset: usize = code_limit + pad;
    let new_filesize: usize = sig_offset - le_fileoff + sig_len;
    let rem2: usize = new_filesize % 16384;
    let new_vmsize: usize = if rem2 == 0 {
        new_filesize
    } else {
        new_filesize + 16384 - rem2
    };
    proof {
        assert(sig_offset == spec_sig_offset(code_limit as int));
        assert(new_vmsize == spec_new_linkedit_vmsize(new_filesize as int));
        assert(new_vmsize % 16384 == 0 && new_vmsize >= new_filesize);
    }

    if sig_offset > 0xffffffff || sig_len > 0xffffffff {
        return Err(SigningError::MachOWrite(String::new()));
    }
    if !img.segments[k].is64 && new_vmsize > 0xffffffff {
        return Err(SigningError::MachOWrite(String::new()));
    }

    let mut out: Vec<u8> = match patch_commands(
        img,
        data,
        k,
        sig_offset,
        sig_len,
        new_filesize,
        new_vmsize,
    ) {
        Ok(h) => h,
        Err(e) => {
            return Err(e);
        },
    };
    let ghost head = out@;
    let head_len: usize = out.len();

    // Write segment contents in file-offset order.
    let nsegs: usize = img.segments.len();
    let pz = pagezero_name();
    let mut j: usize = 0;
    let mut wrote_nonempty: bool = false;
    let mut wrote_linkedit: bool = false;
    while j < nsegs
        invariant
            forall|t: int|
                0 <= t < img.segments@.len() ==> (#[trigger] img.segments@[t]).fileoff
                    + img.segments@[t].filesize <= data@.len(),
            data@.len() + signature_data@.len() + 32768 <= usize::MAX,
            nsegs == img.segments@.len(),
            j <= nsegs,
            0 <= k < nsegs,
            pz@ == crate::macho::spec_pagezero_name(),
            data_len == data@.len(),
            sig_len == signature_data@.len(),
            find_linkedit_rec(img.segments@, 0) == Some(k as int),
            img.spec_signable(),
            code_limit == img.spec_code_limit(k as int),
            le_fileoff == img.segments@[k as int].fileoff,
            le_fileoff <= code_limit <= data_len,
            sig_offset == spec_sig_offset(code_limit as int),
            code_limit <= sig_offset < code_limit + 16,
            sig_offset == code_limit + pad,
            new_filesize == spec_new_linkedit_filesize(
                le_fileoff as int,
                code_limit as int,
                sig_len as int,
            ),
            new_vmsize == spec_new_linkedit_vmsize(new_filesize as int),
            new_vmsize % 16384 == 0,
            new_vmsize >= new_filesize,
            head.len() == head_len,
            head_len <= out@.len(),
            out@.subrange(0, head_len as int) == head,
            head_len == img.cmds_end() + (if img.code_signature is Some {
                0int
            } else {
                16int
            }),
            28 <= img.cmds_end(),
            match img.code_signature {
                Some(cs) => cs.cmd_offset + 16 <= img.cmds_end(),
                None => true,
            },
            img.segments@[k as int].cmd_offset + crate::macho::spec_segment_command_size(
                img.segments@[k as int].is64,
            ) <= img.cmds_end(),
            spec_sig_command_patched(*img, sig_len as int, head, sig_offset as int),
            spec_linkedit_command_patched(
                *img,
                head,
                k as int,
                new_filesize as int,
                new_vmsize as int,
            ),
            wrote_linkedit ==> spec_rewrite_ok(*img, data@, signature_data@, out@),
        decreases nsegs - j,
    {
        let s_is_pagezero = name_matches(&img.segments[j].name, &pz);
        if s_is_pagezero {
            j = j + 1;
            continue ;
        }
        if wrote_linkedit {
            return Err(SigningError::MachOWrite(String::new()));
        }
        let fo: usize = img.segments[j].fileoff as usize;
        if out.len() > fo && fo != 0 && wrote_nonempty {
            return Err(SigningError::MachOWrite(String::new()));
        }
        if j == k {
            if out.len() > fo {
                return Err(SigningError::MachOWrite(String::new()));
            }
            if out.len() < fo {
                let cur: usize = out.len();
                let ghost o0 = out@;
                push_slice_range(&mut out, data, cur, fo);
                proof {
                    lemma_concat_prefix(o0, data@.subrange(cur as int, fo as int), head);
                }
            }
            let ghost before_le = out@;
            push_slice_range(&mut out, data, fo, code_limit);
            push_zeros(&mut out, pad);
            push_bytes(&mut out, signature_data);
            wrote_linkedit = true;
            proof {
                reveal(spec_rewrite_ok);
                reveal(spec_sig_command_patched);
                reveal(spec_linkedit_command_patched);
                let cl = code_limit as int;
                let so = sig_offset as int;
                assert(out@ =~= before_le + data@.subrange(le_fileoff as int, cl) + Seq::new(
                    pad as nat,
                    |i: int| 0u8,
                ) + signature_data@);
                assert(out@.len() == so + sig_len);
                assert(out@.subrange(so, out@.len() as int) =~= signature_data@);
                assert(out@.subrange(cl, so) =~= Seq::new((so - cl) as nat, |i: int| 0u8));
                assert(out@.subrange(le_fileoff as int, cl) =~= data@.subrange(
                    le_fileoff as int,
                    cl,
                ));
                lemma_concat_prefix(
                    before_le,
                    data@.subrange(le_fileoff as int, cl) + Seq::new(pad as nat, |i: int| 0u8)
                        + signature_data@,
                    head,
                );
                assert(out@.subrange(0, head_len as int) == head);
                match img.code_signature {
                    Some(cs) => {
                        lemma_sub_of_prefix(head, out@, cs.cmd_offset + 8, cs.cmd_offset + 12);
                        lemma_sub_of_prefix(head, out@, cs.cmd_offset + 12, cs.cmd_offset + 16);
                    },
                    None => {
                        let ce = img.cmds_end();
                        lemma_sub_of_prefix(head, out@, 16, 20);
                        lemma_sub_of_prefix(head, out@, 20, 24);
                        lemma_sub_of_prefix(head, out@, ce, ce + 4);
                        lemma_sub_of_prefix(head, out@, ce + 4, ce + 8);
                        lemma_sub_of_prefix(head, out@, ce + 8, ce + 12);
                        lemma_sub_of_prefix(head, out@, ce + 12, ce + 16);
                    },
                }
                let le = img.segments@[k as int];
                if le.is64 {
                    lemma_sub_of_prefix(head, out@, le.cmd_offset + 32, le.cmd_offset + 40);
                    lemma_sub_of_prefix(head, out@, le.cmd_offset + 48, le.cmd_offset + 56);
                } else {
                    lemma_sub_of_prefix(head, out@, le.cmd_offset + 28, le.cmd_offset + 32);
                    lemma_sub_of_prefix(head, out@, le.cmd_offset + 36, le.cmd_offset + 40);
                }
                assert(spec_rewrite_ok(*img, data@, signature_data@, out@));
            }
        } else {
            let end: usize = fo + img.segments[j].filesize as usize;
            if out.len() < end {
                let cur: usize = out.len();
                let ghost o0 = out@;
                push_slice_range(&mut out, data, cur, end);
                proof {
                    lemma_concat_prefix(o0, data@.subrange(cur as int, end as int), head);
                }
            }
        }
        wrote_nonempty = true;
        j = j + 1;
    }
    if !wrote_linkedit {
        return Err(SigningError::MachOWrite(String::new()));
    }
    Ok(out)
}

} // verus!
