//! Structural view over a Mach-O slice.
//!
//! `MachOImage` holds the header fields, the load-command table and the
//! segment table of one architecture slice as plain values. Its
//! well-formedness predicate ties every recorded field to the bytes it
//! was read from, so later stages can reason about the image and the
//! backing buffer together.

use vstd::prelude::*;
use vstd::slice::{slice_subrange, slice_to_vec};

use crate::bytes::{read_u32, read_u64, u32_at, u64_at};
use crate::errors::SigningError;

verus! {

pub const MH_MAGIC: u32 = 0xfeedface;

pub const MH_MAGIC_64: u32 = 0xfeedfacf;

pub const MH_EXECUTE: u32 = 2;

pub const LC_SEGMENT: u32 = 0x1;

pub const LC_SEGMENT_64: u32 = 0x19;

pub const LC_CODE_SIGNATURE: u32 = 0x1d;

pub const LC_BUILD_VERSION: u32 = 0x32;

pub const LC_VERSION_MIN_MACOSX: u32 = 0x24;

pub const LC_VERSION_MIN_IPHONEOS: u32 = 0x25;

pub const LC_VERSION_MIN_TVOS: u32 = 0x2f;

pub const LC_VERSION_MIN_WATCHOS: u32 = 0x30;

pub const SIZEOF_LINKEDIT_DATA_COMMAND: u32 = 16;

pub const VM_PROT_EXECUTE: u32 = 4;

/// Mach-O header fields shared by the 32- and 64-bit layouts.
#[derive(Clone, Copy, Debug)]
pub struct MachHeader {
    pub cputype: u32,
    pub cpusubtype: u32,
    pub filetype: u32,
    pub ncmds: u32,
    pub sizeofcmds: u32,
    pub flags: u32,
}

/// One load command: its byte range and its tag.
#[derive(Clone, Copy, Debug)]
pub struct LoadCommandInfo {
    pub offset: usize,
    pub cmd: u32,
    pub cmdsize: u32,
}

/// One `LC_SEGMENT`/`LC_SEGMENT_64` command, reduced to the fields the
/// signer reads.
#[derive(Clone, Debug)]
pub struct SegmentInfo {
    pub cmd_offset: usize,
    pub is64: bool,
    /// The raw 16 `segname` bytes.
    pub name: Vec<u8>,
    pub vmsize: u64,
    pub fileoff: u64,
    pub filesize: u64,
    pub initprot: u32,
}

/// The existing `LC_CODE_SIGNATURE` command, when present.
#[derive(Clone, Copy, Debug)]
pub struct CodeSignatureCommand {
    pub cmd_offset: usize,
    pub dataoff: u32,
    pub datasize: u32,
}

/// Platform targeting taken from `LC_BUILD_VERSION` or a
/// `LC_VERSION_MIN_*` command; versions keep their nibble encoding.
#[derive(Clone, Copy, Debug)]
pub struct Targeting {
    pub platform: u32,
    pub minimum_os_version: u32,
    pub sdk_version: u32,
}

/// A parsed Mach-O slice.
#[derive(Clone, Debug)]
pub struct MachOImage {
    pub little: bool,
    pub is64: bool,
    pub header: MachHeader,
    pub commands: Vec<LoadCommandInfo>,
    pub segments: Vec<SegmentInfo>,
    pub code_signature: Option<CodeSignatureCommand>,
    pub targeting: Option<Targeting>,
    pub data_len: usize,
}

/// Size of the Mach-O header for the chosen bitness.
pub open spec fn spec_header_size(is64: bool) -> int {
    if is64 {
        32
    } else {
        28
    }
}

/// Size of a segment load command for the chosen bitness.
pub open spec fn spec_segment_command_size(is64: bool) -> int {
    if is64 {
        72
    } else {
        56
    }
}

/// `segname` bytes are compared against a name padded with NULs to the
/// fixed 16-byte field width.
pub open spec fn spec_padded_name(s: Seq<u8>) -> Seq<u8> {
    s + Seq::new((16 - s.len()) as nat, |i: int| 0u8)
}

/// The bytes of `__LINKEDIT`.
pub open spec fn spec_linkedit_name() -> Seq<u8> {
    seq![0x5fu8, 0x5f, 0x4c, 0x49, 0x4e, 0x4b, 0x45, 0x44, 0x49, 0x54]
}

/// The bytes of `__PAGEZERO`.
pub open spec fn spec_pagezero_name() -> Seq<u8> {
    seq![0x5fu8, 0x5f, 0x50, 0x41, 0x47, 0x45, 0x5a, 0x45, 0x52, 0x4f]
}

/// Whether a segment is the `__LINKEDIT` segment.
pub open spec fn spec_is_linkedit(s: SegmentInfo) -> bool {
    s.name@ == spec_padded_name(spec_linkedit_name())
}

/// Whether a segment is the `__PAGEZERO` segment.
pub open spec fn spec_is_pagezero(s: SegmentInfo) -> bool {
    s.name@ == spec_padded_name(spec_pagezero_name())
}

/// The 10 name bytes of `__LINKEDIT` as a vector.
pub fn linkedit_name() -> (r: Vec<u8>)
    ensures
        r@ == spec_linkedit_name(),
{
    let mut v: Vec<u8> = Vec::new();
    v.push(0x5f);
    v.push(0x5f);
    v.push(0x4c);
    v.push(0x49);
    v.push(0x4e);
    v.push(0x4b);
    v.push(0x45);
    v.push(0x44);
    v.push(0x49);
    v.push(0x54);
    assert(v@ =~= spec_linkedit_name());
    v
}

/// The 10 name bytes of `__PAGEZERO` as a vector.
pub fn pagezero_name() -> (r: Vec<u8>)
    ensures
        r@ == spec_pagezero_name(),
{
    let mut v: Vec<u8> = Vec::new();
    v.push(0x5f);
    v.push(0x5f);
    v.push(0x50);
    v.push(0x41);
    v.push(0x47);
    v.push(0x45);
    v.push(0x5a);
    v.push(0x45);
    v.push(0x52);
    v.push(0x4f);
    assert(v@ =~= spec_pagezero_name());
    v
}

/// Compare a raw 16-byte `segname` field against a short name padded
/// with NULs.
pub fn name_matches(name: &Vec<u8>, target: &Vec<u8>) -> (r: bool)
    requires
        target@.len() <= 16,
    ensures
        r == (name@ == spec_padded_name(target@)),
{
    if name.len() != 16 {
        assert(spec_padded_name(target@).len() == 16);
        return false;
    }
    let mut i: usize = 0;
    while i < 16
        invariant
            name@.len() == 16,
            target@.len() <= 16,
            i <= 16,
            forall|j: int| 0 <= j < i ==> name@[j] == spec_padded_name(target@)[j],
        decreases 16 - i,
    {
        let expect: u8 = if i < target.len() {
            target[i]
        } else {
            0
        };
        assert(expect == spec_padded_name(target@)[i as int]);
        if name[i] != expect {
            assert(name@ != spec_padded_name(target@)) by {
                assert(name@[i as int] != spec_padded_name(target@)[i as int]);
            }
            return false;
        }
        i = i + 1;
    }
    assert(name@ =~= spec_padded_name(target@));
    true
}

/// Structural validity of one load command entry against the bytes.
pub open spec fn lc_wf(c: LoadCommandInfo, data: Seq<u8>, little: bool, lo: int, hi: int) -> bool {
    &&& 8 <= c.cmdsize
    &&& lo <= c.offset
    &&& c.offset + c.cmdsize <= hi
    &&& c.cmd == u32_at(data, c.offset as int, little)
    &&& c.cmdsize == u32_at(data, c.offset + 4, little)
}

/// Structural validity of one segment entry against the bytes.
pub open spec fn seg_wf(s: SegmentInfo, data: Seq<u8>, little: bool, hi: int) -> bool {
    &&& s.name@.len() == 16
    &&& s.cmd_offset + spec_segment_command_size(s.is64) <= hi
    &&& u32_at(data, s.cmd_offset as int, little) == if s.is64 {
        LC_SEGMENT_64
    } else {
        LC_SEGMENT
    }
    &&& s.name@ == data.subrange(s.cmd_offset + 8, s.cmd_offset + 24)
    &&& if s.is64 {
        &&& s.vmsize == u64_at(data, s.cmd_offset + 32, little)
        &&& s.fileoff == u64_at(data, s.cmd_offset + 40, little)
        &&& s.filesize == u64_at(data, s.cmd_offset + 48, little)
        &&& s.initprot == u32_at(data, s.cmd_offset + 60, little)
    } else {
        &&& s.vmsize == u32_at(data, s.cmd_offset + 28, little)
        &&& s.fileoff == u32_at(data, s.cmd_offset + 32, little)
        &&& s.filesize == u32_at(data, s.cmd_offset + 36, little)
        &&& s.initprot == u32_at(data, s.cmd_offset + 44, little)
    }
    &&& s.fileoff + s.filesize <= data.len()
}

impl MachOImage {
    /// Size of this slice's Mach-O header.
    pub open spec fn header_size(self) -> int {
        spec_header_size(self.is64)
    }

    /// End of the load-command region.
    pub open spec fn cmds_end(self) -> int {
        self.header_size() + self.header.sizeofcmds
    }

    /// The load-command table starts right after the header and every
    /// command follows the previous one without a gap.
    pub open spec fn cmds_contiguous(self) -> bool {
        &&& (self.commands@.len() > 0 ==> self.commands@[0].offset == self.header_size())
        &&& forall|j: int|
            1 <= j < self.commands@.len() ==> (#[trigger] self.commands@[j]).offset
                == self.commands@[j - 1].offset + self.commands@[j - 1].cmdsize
    }

    /// The recorded signature command agrees with the bytes; when no
    /// command is recorded, no `LC_CODE_SIGNATURE` exists at all.
    pub open spec fn code_signature_wf(self, data: Seq<u8>) -> bool {
        match self.code_signature {
            Some(cs) => {
                &&& cs.cmd_offset + 16 <= self.cmds_end()
                &&& self.header_size() <= cs.cmd_offset
                &&& u32_at(data, cs.cmd_offset as int, self.little) == LC_CODE_SIGNATURE
                &&& cs.dataoff == u32_at(data, cs.cmd_offset + 8, self.little)
                &&& cs.datasize == u32_at(data, cs.cmd_offset + 12, self.little)
                &&& exists|j: int|
                    0 <= j < self.commands@.len() && (#[trigger] self.commands@[j]).offset
                        == cs.cmd_offset && self.commands@[j].cmd == LC_CODE_SIGNATURE
                &&& forall|j: int|
                    0 <= j < self.commands@.len() && (#[trigger] self.commands@[j]).cmd
                        == LC_CODE_SIGNATURE ==> self.commands@[j].offset == cs.cmd_offset
            },
            None => forall|j: int|
                0 <= j < self.commands@.len() ==> (#[trigger] self.commands@[j]).cmd
                    != LC_CODE_SIGNATURE,
        }
    }

    /// Full well-formedness of the view against its backing bytes.
    pub open spec fn wf(self, data: Seq<u8>) -> bool {
        &&& self.data_len == data.len()
        &&& self.header_size() + self.header.sizeofcmds <= data.len()
        &&& u32_at(data, 0, self.little) == if self.is64 {
            MH_MAGIC_64
        } else {
            MH_MAGIC
        }
        &&& self.header.cputype == u32_at(data, 4, self.little)
        &&& self.header.cpusubtype == u32_at(data, 8, self.little)
        &&& self.header.filetype == u32_at(data, 12, self.little)
        &&& self.header.ncmds == u32_at(data, 16, self.little)
        &&& self.header.sizeofcmds == u32_at(data, 20, self.little)
        &&& self.header.flags == u32_at(data, 24, self.little)
        &&& self.commands@.len() == self.header.ncmds
        &&& self.cmds_contiguous()
        &&& forall|j: int|
            0 <= j < self.commands@.len() ==> lc_wf(
                #[trigger] self.commands@[j],
                data,
                self.little,
                self.header_size(),
                self.cmds_end(),
            )
        &&& forall|k: int|
            0 <= k < self.segments@.len() ==> seg_wf(
                #[trigger] self.segments@[k],
                data,
                self.little,
                self.cmds_end(),
            )
        &&& forall|k: int|
            1 <= k < self.segments@.len() ==> (#[trigger] self.segments@[k]).fileoff
                >= self.segments@[k - 1].fileoff
        &&& self.code_signature_wf(data)
    }

    /// Whether this slice is a main executable.
    pub fn is_executable(&self) -> (r: bool)
        ensures
            r == (self.header.filetype == MH_EXECUTE),
    {
        self.header.filetype == MH_EXECUTE
    }
}

/// First `__LINKEDIT` segment at or after position `i`.
pub open spec fn find_linkedit_rec(segs: Seq<SegmentInfo>, i: int) -> Option<int>
    decreases segs.len() - i,
{
    if !(0 <= i < segs.len()) {
        None
    } else if spec_is_linkedit(segs[i]) {
        Some(i)
    } else {
        find_linkedit_rec(segs, i + 1)
    }
}

/// First executable segment at or after position `i`.
pub open spec fn find_exec_seg_rec(segs: Seq<SegmentInfo>, i: int) -> Option<int>
    decreases segs.len() - i,
{
    if !(0 <= i < segs.len()) {
        None
    } else if segs[i].initprot & VM_PROT_EXECUTE != 0 {
        Some(i)
    } else {
        find_exec_seg_rec(segs, i + 1)
    }
}

impl MachOImage {
    /// Index of the `__LINKEDIT` segment, if any.
    pub fn find_linkedit(&self) -> (r: Option<usize>)
        ensures
            match r {
                Some(k) => 0 <= k < self.segments@.len() && find_linkedit_rec(self.segments@, 0)
                    == Some(k as int),
                None => find_linkedit_rec(self.segments@, 0) is None,
            },
    {
        let target = linkedit_name();
        let n = self.segments.len();
        let mut i: usize = 0;
        while i < n
            invariant
                n == self.segments@.len(),
                i <= n,
                target@ == spec_linkedit_name(),
                find_linkedit_rec(self.segments@, 0) == find_linkedit_rec(self.segments@, i as int),
            decreases n - i,
        {
            if name_matches(&self.segments[i].name, &target) {
                return Some(i);
            }
            i = i + 1;
        }
        None
    }

    /// Index of the first executable segment, if any.
    pub fn find_exec_segment(&self) -> (r: Option<usize>)
        ensures
            match r {
                Some(k) => 0 <= k < self.segments@.len() && find_exec_seg_rec(self.segments@, 0)
                    == Some(k as int),
                None => find_exec_seg_rec(self.segments@, 0) is None,
            },
    {
        let n = self.segments.len();
        let mut i: usize = 0;
        while i < n
            invariant
                n == self.segments@.len(),
                i <= n,
                find_exec_seg_rec(self.segments@, 0) == find_exec_seg_rec(self.segments@, i as int),
            decreases n - i,
        {
            if self.segments[i].initprot & VM_PROT_EXECUTE != 0 {
                return Some(i);
            }
            i = i + 1;
        }
        None
    }

    /// File offset and size of the executable segment, for the
    /// Code Directory's exec-segment fields.
    pub fn executable_segment_boundary(&self) -> (r: Result<(u64, u64), SigningError>)
        ensures
            match r {
                Ok((base, limit)) => match find_exec_seg_rec(self.segments@, 0) {
                    Some(k) => base == self.segments@[k].fileoff && limit
                        == self.segments@[k].filesize,
                    None => false,
                },
                Err(e) => e is UnsupportedBinary && find_exec_seg_rec(self.segments@, 0) is None,
            },
    {
        match self.find_exec_segment() {
            Some(k) => Ok((self.segments[k].fileoff, self.segments[k].filesize)),
            None => Err(SigningError::UnsupportedBinary),
        }
    }

    /// The code limit: where digest coverage stops and the embedded
    /// signature begins.
    pub open spec fn spec_code_limit(self, k: int) -> int {
        match self.code_signature {
            Some(cs) => cs.dataoff as int,
            None => self.segments@[k].fileoff + self.segments@[k].filesize,
        }
    }

    /// A slice we are able to sign: it has a `__LINKEDIT` segment that
    /// ends the file, and any existing signature sits exactly at the
    /// end of that segment.
    pub open spec fn spec_signable(self) -> bool {
        match find_linkedit_rec(self.segments@, 0) {
            None => false,
            Some(k) => {
                let le = self.segments@[k];
                &&& le.fileoff + le.filesize == self.data_len
                &&& match self.code_signature {
                    Some(cs) => cs.dataoff + cs.datasize == le.fileoff + le.filesize && le.fileoff
                        <= cs.dataoff,
                    None => true,
                }
            },
        }
    }

    /// Locate `__LINKEDIT` and compute the code limit, validating that
    /// the slice can be signed at all.
    ///
    /// Returns the `__LINKEDIT` segment index and the code limit.
    /// `MissingLinkedit` means there is no `__LINKEDIT` segment;
    /// `UnsupportedBinary` means the segment or an existing signature
    /// is somewhere this signer cannot handle.
    pub fn code_limit_offset(&self) -> (r: Result<(usize, u64), SigningError>)
        ensures
            match r {
                Ok((k, limit)) => {
                    &&& self.spec_signable()
                    &&& find_linkedit_rec(self.segments@, 0) == Some(k as int)
                    &&& 0 <= k < self.segments@.len()
                    &&& limit == self.spec_code_limit(k as int)
                    &&& self.segments@[k as int].fileoff <= limit
                    &&& limit <= self.segments@[k as int].fileoff
                        + self.segments@[k as int].filesize
                    &&& self.segments@[k as int].fileoff + self.segments@[k as int].filesize
                        == self.data_len
                },
                Err(e) => {
                    &&& !self.spec_signable()
                    &&& (e is MissingLinkedit || e is UnsupportedBinary)
                    &&& (e is MissingLinkedit <==> find_linkedit_rec(self.segments@, 0) is None)
                },
            },
    {
        let k = match self.find_linkedit() {
            Some(k) => k,
            None => {
                return Err(SigningError::MissingLinkedit);
            },
        };
        let le_fileoff = self.segments[k].fileoff;
        let le_filesize = self.segments[k].filesize;
        if le_fileoff > u64::MAX - le_filesize {
            return Err(SigningError::UnsupportedBinary);
        }
        let le_end = le_fileoff + le_filesize;
        if le_end != self.data_len as u64 {
            return Err(SigningError::UnsupportedBinary);
        }
        match self.code_signature {
            Some(cs) => {
                let sig_end = cs.dataoff as u64 + cs.datasize as u64;
                if sig_end == le_end && le_fileoff <= cs.dataoff as u64 {
                    Ok((k, cs.dataoff as u64))
                } else {
                    Err(SigningError::UnsupportedBinary)
                }
            },
            None => Ok((k, le_end)),
        }
    }
}

/// Parse one thin Mach-O slice into its structural view.
///
/// On success every recorded field equals the value read from `data`
/// at the documented offset (see [`MachOImage::wf`]). The parse
/// rejects, with `ParseError`, inputs whose magic, bounds or command
/// sizes are inconsistent, and with `UnsupportedBinary` those with
/// duplicated `LC_CODE_SIGNATURE` commands or segments out of
/// file-offset order.
#[verifier::rlimit(60)]
pub fn parse_macho(data: &[u8]) -> (r: Result<MachOImage, SigningError>)
    ensures
        match r {
            Ok(img) => img.wf(data@) && data@.len() >= 28,
            Err(e) => e is ParseError || e is UnsupportedBinary,
        },
        data@.len() < 28 ==> r is Err,
{
    let n: usize = data.len();
    if n < 28 {
        return Err(SigningError::ParseError);
    }
    let magic_le = read_u32(data, 0, true);
    let (little, is64) = if magic_le == MH_MAGIC_64 {
        (true, true)
    } else if magic_le == MH_MAGIC {
        (true, false)
    } else {
        let magic_be = read_u32(data, 0, false);
        if magic_be == MH_MAGIC_64 {
            (false, true)
        } else if magic_be == MH_MAGIC {
            (false, false)
        } else {
            return Err(SigningError::ParseError);
        }
    };
    let header_size: usize = if is64 {
        32
    } else {
        28
    };
    if n < header_size {
        return Err(SigningError::ParseError);
    }
    let header = MachHeader {
        cputype: read_u32(data, 4, little),
        cpusubtype: read_u32(data, 8, little),
        filetype: read_u32(data, 12, little),
        ncmds: read_u32(data, 16, little),
        sizeofcmds: read_u32(data, 20, little),
        flags: read_u32(data, 24, little),
    };
    if header.sizeofcmds as u64 > (n - header_size) as u64 {
        return Err(SigningError::ParseError);
    }
    let cmds_end: usize = header_size + header.sizeofcmds as usize;
    let ncmds = header.ncmds as usize;

    let mut commands: Vec<LoadCommandInfo> = Vec::new();
    let mut segments: Vec<SegmentInfo> = Vec::new();
    let mut code_signature: Option<CodeSignatureCommand> = None;
    let mut build_version: Option<Targeting> = None;
    let mut version_min: Option<Targeting> = None;
    let mut off: usize = header_size;
    let mut i: usize = 0;
    while i < ncmds
        invariant
            n == data@.len(),
            header_size == spec_header_size(is64),
            header_size <= cmds_end <= n,
            cmds_end == header_size + header.sizeofcmds,
            i <= ncmds,
            commands@.len() == i,
            header_size <= off <= cmds_end,
            i == 0 ==> off == header_size,
            i > 0 ==> off == commands@[i - 1].offset + commands@[i - 1].cmdsize,
            i > 0 ==> commands@[0].offset == header_size,
            forall|j: int|
                1 <= j < i ==> (#[trigger] commands@[j]).offset == commands@[j - 1].offset
                    + commands@[j - 1].cmdsize,
            forall|j: int|
                0 <= j < i ==> lc_wf(
                    #[trigger] commands@[j],
                    data@,
                    little,
                    header_size as int,
                    cmds_end as int,
                ),
            forall|k: int|
                0 <= k < segments@.len() ==> seg_wf(
                    #[trigger] segments@[k],
                    data@,
                    little,
                    cmds_end as int,
                ),
            forall|k: int|
                1 <= k < segments@.len() ==> (#[trigger] segments@[k]).fileoff >= segments@[k
                    - 1].fileoff,
            match code_signature {
                Some(cs) => {
                    &&& cs.cmd_offset + 16 <= cmds_end
                    &&& header_size <= cs.cmd_offset
                    &&& u32_at(data@, cs.cmd_offset as int, little) == LC_CODE_SIGNATURE
                    &&& cs.dataoff == u32_at(data@, cs.cmd_offset + 8, little)
                    &&& cs.datasize == u32_at(data@, cs.cmd_offset + 12, little)
                    &&& exists|j: int|
                        0 <= j < i && (#[trigger] commands@[j]).offset == cs.cmd_offset
                            && commands@[j].cmd == LC_CODE_SIGNATURE
                    &&& forall|j: int|
                        0 <= j < i && (#[trigger] commands@[j]).cmd == LC_CODE_SIGNATURE
                            ==> commands@[j].offset == cs.cmd_offset
                },
                None => forall|j: int|
                    0 <= j < i ==> (#[trigger] commands@[j]).cmd != LC_CODE_SIGNATURE,
            },
        decreases ncmds - i,
    {
        if cmds_end - off < 8 {
            return Err(SigningError::ParseError);
        }
        let cmd = read_u32(data, off, little);
        let cmdsize = read_u32(data, off + 4, little);
        if cmdsize < 8 {
            return Err(SigningError::ParseError);
        }
        if cmdsize as usize > cmds_end - off {
            return Err(SigningError::ParseError);
        }
        if cmd == LC_SEGMENT || cmd == LC_SEGMENT_64 {
            let seg64 = cmd == LC_SEGMENT_64;
            let need: u32 = if seg64 {
                72
            } else {
                56
            };
            if cmdsize < need {
                return Err(SigningError::ParseError);
            }
            let name = slice_to_vec(slice_subrange(data, off + 8, off + 24));
            let (vmsize, fileoff, filesize, initprot) = if seg64 {
                (
                    read_u64(data, off + 32, little),
                    read_u64(data, off + 40, little),
                    read_u64(data, off + 48, little),
                    read_u32(data, off + 60, little),
                )
            } else {
                (
                    read_u32(data, off + 28, little) as u64,
                    read_u32(data, off + 32, little) as u64,
                    read_u32(data, off + 36, little) as u64,
                    read_u32(data, off + 44, little),
                )
            };
            if filesize > n as u64 || fileoff > n as u64 - filesize {
                return Err(SigningError::ParseError);
            }
            if segments.len() > 0 && fileoff < segments[segments.len() - 1].fileoff {
                return Err(SigningError::UnsupportedBinary);
            }
            segments.push(
                SegmentInfo { cmd_offset: off, is64: seg64, name, vmsize, fileoff, filesize, initprot },
            );
        } else if cmd == LC_CODE_SIGNATURE {
            if cmdsize < 16 {
                return Err(SigningError::ParseError);
            }
            if code_signature.is_some() {
                return Err(SigningError::UnsupportedBinary);
            }
            code_signature = Some(
                CodeSignatureCommand {
                    cmd_offset: off,
                    dataoff: read_u32(data, off + 8, little),
                    datasize: read_u32(data, off + 12, little),
                },
            );
        } else if cmd == LC_BUILD_VERSION {
            if cmdsize < 24 {
                return Err(SigningError::ParseError);
            }
            build_version = Some(
                Targeting {
                    platform: read_u32(data, off + 8, little),
                    minimum_os_version: read_u32(data, off + 12, little),
                    sdk_version: read_u32(data, off + 16, little),
                },
            );
        } else if cmd == LC_VERSION_MIN_MACOSX || cmd == LC_VERSION_MIN_IPHONEOS || cmd
            == LC_VERSION_MIN_TVOS || cmd == LC_VERSION_MIN_WATCHOS {
            if cmdsize < 16 {
                return Err(SigningError::ParseError);
            }
            if version_min.is_none() {
                let platform: u32 = if cmd == LC_VERSION_MIN_MACOSX {
                    1
                } else if cmd == LC_VERSION_MIN_IPHONEOS {
                    2
                } else if cmd == LC_VERSION_MIN_TVOS {
                    3
                } else {
                    4
                };
                version_min = Some(
                    Targeting {
                        platform,
                        minimum_os_version: read_u32(data, off + 8, little),
                        sdk_version: read_u32(data, off + 12, little),
                    },
                );
            }
        }
        let ghost cpre = commands@;
        commands.push(LoadCommandInfo { offset: off, cmd, cmdsize });
        proof {
            assert(commands@[i as int].offset == off && commands@[i as int].cmd == cmd);
            if cmd == LC_CODE_SIGNATURE {
                assert(code_signature matches Some(cs) && cs.cmd_offset == off);
            } else {
                match code_signature {
                    Some(cs) => {
                        let j = choose|j: int|
                            0 <= j < i && (#[trigger] cpre[j]).offset == cs.cmd_offset
                                && cpre[j].cmd == LC_CODE_SIGNATURE;
                        assert(commands@[j].offset == cs.cmd_offset && commands@[j].cmd
                            == LC_CODE_SIGNATURE);
                    },
                    None => {},
                }
            }
        }
        off = off + cmdsize as usize;
        i = i + 1;
    }

    let targeting = match build_version {
        Some(t) => Some(t),
        None => version_min,
    };
    let img = MachOImage {
        little,
        is64,
        header,
        commands,
        segments,
        code_signature,
        targeting,
        data_len: n,
    };
    Ok(img)
}

} // verus!
