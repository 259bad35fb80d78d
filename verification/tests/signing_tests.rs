//! End-to-end signing scenarios over synthetic Mach-O images.

use apple_codesign::digest::DigestKind;
use apple_codesign::errors::SigningError;
use apple_codesign::macho::parse_macho;
use apple_codesign::rewrite::create_macho_with_signature;
use apple_codesign::entitlements::EntitlementValue;
use apple_codesign::settings::SigningSettings;
use apple_codesign::signing::{MachOSigner, NullCmsSigner};

fn u32le(v: &mut Vec<u8>, x: u32) {
    v.extend_from_slice(&x.to_le_bytes());
}

fn u64le(v: &mut Vec<u8>, x: u64) {
    v.extend_from_slice(&x.to_le_bytes());
}

fn seg_name(v: &mut Vec<u8>, name: &str) {
    let mut n = name.as_bytes().to_vec();
    n.resize(16, 0);
    v.extend_from_slice(&n);
}

const CPU_ARM64: u32 = 0x0100000c;
const CPU_X86_64: u32 = 0x01000007;

/// A minimal thin 64-bit MH_EXECUTE with __TEXT, __LINKEDIT and a
/// build-version command.
fn build_thin(cputype: u32) -> Vec<u8> {
    let mut v = Vec::new();
    u32le(&mut v, 0xfeedfacf); // magic
    u32le(&mut v, cputype);
    u32le(&mut v, 0); // cpusubtype
    u32le(&mut v, 2); // MH_EXECUTE
    u32le(&mut v, 3); // ncmds
    u32le(&mut v, 168); // sizeofcmds
    u32le(&mut v, 0); // flags
    u32le(&mut v, 0); // reserved

    // __TEXT
    u32le(&mut v, 0x19);
    u32le(&mut v, 72);
    seg_name(&mut v, "__TEXT");
    u64le(&mut v, 0x100000000); // vmaddr
    u64le(&mut v, 0x200); // vmsize
    u64le(&mut v, 0); // fileoff
    u64le(&mut v, 0x200); // filesize
    u32le(&mut v, 5); // maxprot
    u32le(&mut v, 5); // initprot
    u32le(&mut v, 0); // nsects
    u32le(&mut v, 0); // flags

    // __LINKEDIT
    u32le(&mut v, 0x19);
    u32le(&mut v, 72);
    seg_name(&mut v, "__LINKEDIT");
    u64le(&mut v, 0x100001000);
    u64le(&mut v, 0x40);
    u64le(&mut v, 0x200);
    u64le(&mut v, 0x40);
    u32le(&mut v, 1);
    u32le(&mut v, 1);
    u32le(&mut v, 0);
    u32le(&mut v, 0);

    // LC_BUILD_VERSION
    u32le(&mut v, 0x32);
    u32le(&mut v, 24);
    u32le(&mut v, 1); // PLATFORM_MACOS
    u32le(&mut v, 0x000b0000); // 11.0
    u32le(&mut v, 0x000c0000); // 12.0
    u32le(&mut v, 0); // ntools

    v.resize(0x100, 0);
    v.extend_from_slice(&[0x11, 0x22, 0x33, 0x44]);
    v.resize(0x200, 0);
    // __LINKEDIT content
    v.resize(0x240, 0x5a);
    v
}

fn read_be32(v: &[u8], off: usize) -> u32 {
    u32::from_be_bytes([v[off], v[off + 1], v[off + 2], v[off + 3]])
}

fn read_be64(v: &[u8], off: usize) -> u64 {
    let hi = read_be32(v, off) as u64;
    let lo = read_be32(v, off + 4) as u64;
    (hi << 32) | lo
}

/// The embedded SuperBlob of a signed thin slice, with its file
/// offset and declared size.
fn extract_superblob(signed: &[u8]) -> (usize, usize) {
    let img = parse_macho(signed).expect("signed slice parses");
    let cs = img.code_signature.expect("signed slice has LC_CODE_SIGNATURE");
    (cs.dataoff as usize, cs.datasize as usize)
}

/// Slot index entries of a SuperBlob at `off`.
fn superblob_slots(signed: &[u8], off: usize) -> Vec<(u32, usize)> {
    assert_eq!(read_be32(signed, off), 0xfade0cc0);
    let count = read_be32(signed, off + 8) as usize;
    let mut slots = Vec::new();
    for i in 0..count {
        let slot = read_be32(signed, off + 12 + 8 * i);
        let blob_off = read_be32(signed, off + 16 + 8 * i) as usize;
        slots.push((slot, off + blob_off));
    }
    slots
}

fn find_slot(slots: &[(u32, usize)], slot: u32) -> Option<usize> {
    slots.iter().find(|p| p.0 == slot).map(|p| p.1)
}

fn sha256_of(data: &[u8]) -> Vec<u8> {
    <sha2::Sha256 as sha2::Digest>::digest(data).to_vec()
}

fn adhoc_settings(ident: &str) -> SigningSettings {
    let mut settings = SigningSettings::new();
    settings.set_binary_identifier(ident);
    settings
}

fn sign(data: &[u8], settings: &SigningSettings) -> Result<Vec<u8>, SigningError> {
    let signer = MachOSigner::new(data)?;
    let mut cms = NullCmsSigner {};
    signer.write_signed_binary(settings, &mut cms)
}

#[test]
fn adhoc_sign_minimal_thin_arm64() {
    let input = build_thin(CPU_ARM64);
    let settings = adhoc_settings("hello");
    let signed = sign(&input, &settings).expect("ad-hoc signing succeeds");

    let (sig_off, sig_size) = extract_superblob(&signed);
    // Alignment of the signature start.
    assert_eq!(sig_off % 16, 0);
    // The signature ends the file.
    assert_eq!(sig_off + sig_size, signed.len());

    let img = parse_macho(&signed).expect("parses");
    // Exactly one LC_CODE_SIGNATURE.
    let n_sig_cmds = img
        .commands
        .iter()
        .filter(|c| c.cmd == 0x1d)
        .count();
    assert_eq!(n_sig_cmds, 1);
    // dataoff + datasize equals the end of __LINKEDIT.
    let le = img
        .segments
        .iter()
        .find(|s| s.name.starts_with(b"__LINKEDIT"))
        .expect("has __LINKEDIT");
    assert_eq!(sig_off as u64 + sig_size as u64, le.fileoff + le.filesize);
    // __LINKEDIT vmsize rounded to 16 KiB and covering filesize.
    assert_eq!(le.vmsize % 16384, 0);
    assert!(le.vmsize >= le.filesize);

    let slots = superblob_slots(&signed, sig_off);
    // One primary Code Directory.
    let cd_off = find_slot(&slots, 0).expect("has CodeDirectory");
    assert_eq!(read_be32(&signed, cd_off), 0xfade0c02);
    // ADHOC flag set.
    let flags = read_be32(&signed, cd_off + 12);
    assert_ne!(flags & 0x2, 0);
    // SHA-256 digests.
    assert_eq!(signed[cd_off + 37], 2);
    // Empty CMS signature blob present.
    let sig_slot_off = find_slot(&slots, 0x10000).expect("has Signature slot");
    assert_eq!(read_be32(&signed, sig_slot_off), 0xfade0b01);
    assert_eq!(read_be32(&signed, sig_slot_off + 4), 8);
    // Requirement set present and empty.
    let req_off = find_slot(&slots, 2).expect("has RequirementSet");
    assert_eq!(read_be32(&signed, req_off), 0xfade0c01);
    assert_eq!(read_be32(&signed, req_off + 4), 12);
    assert_eq!(read_be32(&signed, req_off + 8), 0);
    // No DER entitlements.
    assert!(find_slot(&slots, 7).is_none());
    // Executable segment fields: version 0x20400, flags MAIN_BINARY.
    let version = read_be32(&signed, cd_off + 8);
    assert_eq!(version, 0x20400);
    let exec_seg_flags = read_be64(&signed, cd_off + 80);
    assert_eq!(exec_seg_flags, 0x1);

    // Digest coverage: the code limit here fits one page, and the
    // recorded digest is the digest of bytes [0, code_limit).
    let code_limit = read_be32(&signed, cd_off + 32) as usize;
    assert_eq!(code_limit, sig_off);
    let n_code = read_be32(&signed, cd_off + 28) as usize;
    assert_eq!(n_code, 1);
    let hash_off = read_be32(&signed, cd_off + 16) as usize;
    let digest = &signed[cd_off + hash_off..cd_off + hash_off + 32];
    assert_eq!(digest, sha256_of(&signed[..code_limit]).as_slice());
    // The identifier is NUL-terminated at identOffset.
    let ident_off = read_be32(&signed, cd_off + 20) as usize;
    assert_eq!(&signed[cd_off + ident_off..cd_off + ident_off + 6], b"hello\0");
}

#[test]
fn dual_code_directory_sha1_sha256() {
    let input = build_thin(CPU_ARM64);
    let mut settings = adhoc_settings("dual");
    settings.extra_digests.push(DigestKind::Sha1);
    let signed = sign(&input, &settings).expect("signs");

    let (sig_off, _) = extract_superblob(&signed);
    let slots = superblob_slots(&signed, sig_off);
    let cd_off = find_slot(&slots, 0).expect("primary CD");
    let alt_off = find_slot(&slots, 0x1000).expect("alternate CD at 0x1000");
    // Primary SHA-256, alternate SHA-1.
    assert_eq!(signed[cd_off + 37], 2);
    assert_eq!(signed[alt_off + 37], 1);
    // Both cover the same code limit.
    assert_eq!(
        read_be32(&signed, cd_off + 32),
        read_be32(&signed, alt_off + 32)
    );
    // SHA-1 digest length is 20.
    assert_eq!(signed[alt_off + 36], 20);
}

#[test]
fn entitlements_executable_gets_der_and_exec_flags() {
    let input = build_thin(CPU_ARM64);
    let mut settings = adhoc_settings("com.example.app");
    let xml = b"<plist><dict><key>get-task-allow</key><true/></dict></plist>".to_vec();
    settings.entitlements_xml = Some(xml.clone());
    settings.entitlements_plist = Some(vec![(
        b"get-task-allow".to_vec(),
        EntitlementValue::Boolean(true),
    )]);
    let signed = sign(&input, &settings).expect("signs");

    let (sig_off, _) = extract_superblob(&signed);
    let slots = superblob_slots(&signed, sig_off);
    let cd_off = find_slot(&slots, 0).expect("CD");
    let ent_off = find_slot(&slots, 5).expect("Entitlements blob");
    let der_off = find_slot(&slots, 7).expect("DER entitlements blob");
    assert_eq!(read_be32(&signed, ent_off), 0xfade7171);
    assert_eq!(read_be32(&signed, der_off), 0xfade7172);
    // XML payload carried verbatim.
    let ent_len = read_be32(&signed, ent_off + 4) as usize;
    assert_eq!(&signed[ent_off + 8..ent_off + ent_len], xml.as_slice());
    // Exec segment flags: MAIN_BINARY | ALLOW_UNSIGNED.
    let exec_seg_flags = read_be64(&signed, cd_off + 80);
    assert_eq!(exec_seg_flags, 0x11);
    // The Entitlements special-slot digest equals the digest of the
    // serialized Entitlements blob.
    let hash_off = read_be32(&signed, cd_off + 16) as usize;
    let slot5 = &signed[cd_off + hash_off - 5 * 32..cd_off + hash_off - 4 * 32];
    let blob = &signed[ent_off..ent_off + ent_len];
    assert_eq!(slot5, sha256_of(blob).as_slice());
}

#[test]
fn universal_binary_two_slices() {
    let arm = build_thin(CPU_ARM64);
    let x86 = build_thin(CPU_X86_64);
    // Frame a fat input by hand.
    let mut fat = Vec::new();
    fat.extend_from_slice(&0xcafebabeu32.to_be_bytes());
    fat.extend_from_slice(&2u32.to_be_bytes());
    let off0: u32 = 0x1000;
    let off1: u32 = 0x2000;
    for (cpu, off, len) in [
        (CPU_X86_64, off0, x86.len() as u32),
        (CPU_ARM64, off1, arm.len() as u32),
    ] {
        fat.extend_from_slice(&cpu.to_be_bytes());
        fat.extend_from_slice(&0u32.to_be_bytes());
        fat.extend_from_slice(&off.to_be_bytes());
        fat.extend_from_slice(&len.to_be_bytes());
        fat.extend_from_slice(&12u32.to_be_bytes());
    }
    fat.resize(off0 as usize, 0);
    fat.extend_from_slice(&x86);
    fat.resize(off1 as usize, 0);
    fat.extend_from_slice(&arm);

    // Per-architecture identifier specialization.
    let mut settings = adhoc_settings("main");
    settings
        .arch_identifiers
        .push((CPU_ARM64, b"main-arm64".to_vec()));
    let signed = sign(&fat, &settings).expect("signs universal");

    assert_eq!(read_be32(&signed, 0), 0xcafebabe);
    let count = read_be32(&signed, 4) as usize;
    assert_eq!(count, 2);
    for i in 0..count {
        let cpu = read_be32(&signed, 8 + 20 * i);
        let off = read_be32(&signed, 16 + 20 * i) as usize;
        let size = read_be32(&signed, 20 + 20 * i) as usize;
        assert_eq!(off % 16384, 0);
        let slice = &signed[off..off + size];
        let (sig_off, sig_size) = extract_superblob(slice);
        assert_eq!(sig_off + sig_size, slice.len());
        let slots = superblob_slots(slice, sig_off);
        let cd_off = find_slot(&slots, 0).expect("CD per slice");
        let ident_off = read_be32(slice, cd_off + 20) as usize;
        if cpu == CPU_ARM64 {
            assert_eq!(
                &slice[cd_off + ident_off..cd_off + ident_off + 11],
                b"main-arm64\0"
            );
        } else {
            assert_eq!(&slice[cd_off + ident_off..cd_off + ident_off + 5], b"main\0");
        }
    }
}

#[test]
fn missing_identifier_fails_with_no_identifier() {
    let input = build_thin(CPU_ARM64);
    let settings = SigningSettings::new();
    let r = sign(&input, &settings);
    assert!(matches!(r, Err(SigningError::NoIdentifier)));
}

#[test]
fn signature_overflow_injection() {
    let input = build_thin(CPU_ARM64);
    let settings = adhoc_settings("overflow");
    let signer = MachOSigner::new(&input).expect("parses");
    let mut cms = NullCmsSigner {};
    let reservation = signer
        .estimate_embedded_signature_size(&signer.images[0], &settings)
        .expect("estimates");

    // Compute the real signature size through the same intermediate.
    let placeholder = vec![0u8; reservation];
    let intermediate =
        create_macho_with_signature(&signer.images[0], &input, &placeholder).expect("rewrites");
    let intermediate_img = parse_macho(&intermediate).expect("intermediate parses");
    let real = signer
        .create_superblob(&settings, &intermediate_img, &intermediate, &mut cms)
        .expect("builds superblob")
        .len();

    // Reservation sufficiency for these settings.
    assert!(real <= reservation);

    // Forcing the reservation one byte short deterministically
    // overflows.
    let r = signer.assemble_slice(
        &settings,
        &signer.images[0],
        &input,
        real - 1,
        &mut cms,
    );
    assert!(matches!(r, Err(SigningError::SignatureDataTooLarge)));
}

#[test]
fn re_signing_is_idempotent() {
    let input = build_thin(CPU_ARM64);
    let settings = adhoc_settings("stable");
    let once = sign(&input, &settings).expect("first signing");
    let twice = sign(&once, &settings).expect("second signing");
    assert_eq!(once, twice);
}

#[test]
fn intermediate_round_trip_parse() {
    let input = build_thin(CPU_ARM64);
    let settings = adhoc_settings("roundtrip");
    let signer = MachOSigner::new(&input).expect("parses");
    let reservation = signer
        .estimate_embedded_signature_size(&signer.images[0], &settings)
        .expect("estimates");
    let placeholder = vec![0u8; reservation];
    let intermediate =
        create_macho_with_signature(&signer.images[0], &input, &placeholder).expect("rewrites");
    let intermediate_img = parse_macho(&intermediate).expect("intermediate parses");

    let signed = sign(&input, &settings).expect("signs");
    let signed_img = parse_macho(&signed).expect("output parses");

    // Same segments and code limit as the final output.
    assert_eq!(intermediate_img.segments.len(), signed_img.segments.len());
    for (a, b) in intermediate_img
        .segments
        .iter()
        .zip(signed_img.segments.iter())
    {
        assert_eq!(a.name, b.name);
        assert_eq!(a.fileoff, b.fileoff);
        assert_eq!(a.filesize, b.filesize);
        assert_eq!(a.vmsize, b.vmsize);
    }
    let a = intermediate_img.code_signature.expect("has signature command");
    let b = signed_img.code_signature.expect("has signature command");
    assert_eq!(a.dataoff, b.dataoff);
    assert_eq!(a.datasize, b.datasize);
}

#[test]
fn cms_failure_surfaces_as_cms_error() {
    let input = build_thin(CPU_ARM64);
    let mut settings = adhoc_settings("withcert");
    settings.signing = Some(apple_codesign::settings::SigningIdentity {
        certificate_der: vec![0x30, 0x82, 0x01, 0x00],
        chain_der: vec![],
        derived_requirement: None,
    });
    let r = sign(&input, &settings);
    assert!(matches!(r, Err(SigningError::Cms(_))));
}

#[test]
fn missing_linkedit_is_reported() {
    // A slice with only __TEXT.
    let mut v = Vec::new();
    u32le(&mut v, 0xfeedfacf);
    u32le(&mut v, CPU_ARM64);
    u32le(&mut v, 0);
    u32le(&mut v, 2);
    u32le(&mut v, 1);
    u32le(&mut v, 72);
    u32le(&mut v, 0);
    u32le(&mut v, 0);
    u32le(&mut v, 0x19);
    u32le(&mut v, 72);
    seg_name(&mut v, "__TEXT");
    u64le(&mut v, 0);
    u64le(&mut v, 0x200);
    u64le(&mut v, 0);
    u64le(&mut v, 0x200);
    u32le(&mut v, 5);
    u32le(&mut v, 5);
    u32le(&mut v, 0);
    u32le(&mut v, 0);
    v.resize(0x200, 0);
    let settings = adhoc_settings("nolinkedit");
    let r = sign(&v, &settings);
    assert!(matches!(r, Err(SigningError::MissingLinkedit)));
}

#[test]
fn garbage_input_is_a_parse_error() {
    let r = MachOSigner::new(&[1, 2, 3, 4, 5, 6, 7, 8]);
    assert!(matches!(r, Err(SigningError::ParseError)));
}
