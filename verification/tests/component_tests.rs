//! Unit tests for the blob catalog, digests, entitlements and the
//! bundle-id request planner.

use apple_codesign::blobs::{requirement_set_blob, BlobData};
use apple_codesign::bundle_api::{AppStoreConnectClient, BundleIdPlatform, HttpMethod};
use apple_codesign::digest::{compute_code_digests, DigestKind};
use apple_codesign::entitlements::{
    encode_entitlements_der, plist_to_executable_segment_flags, EntitlementValue,
};
use apple_codesign::bundle_api::BundleIdCapabilityCreateRequestDataAttributes;
use apple_codesign::settings::semver_to_macho_target_version;
use sha2::Digest;

#[test]
fn digest_lengths_and_tags() {
    assert_eq!(DigestKind::Sha1.hash_len(), 20);
    assert_eq!(DigestKind::Sha256.hash_len(), 32);
    assert_eq!(DigestKind::Sha384.hash_len(), 48);
    assert_eq!(DigestKind::Sha512.hash_len(), 64);
    assert_eq!(DigestKind::Sha1.hash_type(), 1);
    assert_eq!(DigestKind::Sha256.hash_type(), 2);
    assert_eq!(DigestKind::Sha384.hash_type(), 4);
    assert_eq!(DigestKind::Sha512.hash_type(), 5);
}

#[test]
fn sha256_digest_matches_reference() {
    let data = b"The quick brown fox jumps over the lazy dog";
    let d = DigestKind::Sha256.digest_data(data);
    assert_eq!(d, sha2::Sha256::digest(data).to_vec());
}

#[test]
fn code_digests_cover_every_page() {
    let mut data = vec![0u8; 4096 * 2 + 100];
    for (i, b) in data.iter_mut().enumerate() {
        *b = (i % 251) as u8;
    }
    let limit = data.len();
    let digests = compute_code_digests(&data, limit, DigestKind::Sha256, 4096);
    assert_eq!(digests.len(), 3);
    assert_eq!(digests[0], sha2::Sha256::digest(&data[..4096]).to_vec());
    assert_eq!(digests[1], sha2::Sha256::digest(&data[4096..8192]).to_vec());
    // The final page is the remainder, unpadded.
    assert_eq!(digests[2], sha2::Sha256::digest(&data[8192..limit]).to_vec());
}

#[test]
fn empty_requirement_set_serializes_to_twelve_bytes() {
    let blob = requirement_set_blob(&vec![]);
    let bytes = blob.to_blob_bytes();
    assert_eq!(bytes, vec![0xfa, 0xde, 0x0c, 0x01, 0, 0, 0, 12, 0, 0, 0, 0]);
}

#[test]
fn requirement_set_wraps_expressions() {
    let expr = vec![0x00u8, 0x00, 0x00, 0x01];
    let blob = requirement_set_blob(&vec![expr.clone()]);
    let bytes = blob.to_blob_bytes();
    // magic, total, count 1, (type 3, offset 20), wrapped requirement.
    assert_eq!(&bytes[0..4], &[0xfa, 0xde, 0x0c, 0x01]);
    assert_eq!(u32::from_be_bytes([bytes[8], bytes[9], bytes[10], bytes[11]]), 1);
    assert_eq!(u32::from_be_bytes([bytes[12], bytes[13], bytes[14], bytes[15]]), 3);
    let off = u32::from_be_bytes([bytes[16], bytes[17], bytes[18], bytes[19]]) as usize;
    assert_eq!(&bytes[off..off + 4], &[0xfa, 0xde, 0x0c, 0x00]);
    assert_eq!(&bytes[off + 8..off + 12], expr.as_slice());
}

#[test]
fn blob_framing_is_big_endian_with_header() {
    let blob = BlobData { magic: 0xfade7171, payload: vec![1, 2, 3] };
    let bytes = blob.to_blob_bytes();
    assert_eq!(bytes, vec![0xfa, 0xde, 0x71, 0x71, 0, 0, 0, 11, 1, 2, 3]);
}

#[test]
fn entitlement_flags_translation() {
    let ents = vec![
        (b"get-task-allow".to_vec(), EntitlementValue::Boolean(true)),
        (
            b"dynamic-codesigning".to_vec(),
            EntitlementValue::Boolean(true),
        ),
        (
            b"com.apple.private.cs.debugger".to_vec(),
            EntitlementValue::Boolean(false),
        ),
    ];
    assert_eq!(plist_to_executable_segment_flags(&ents), 0x10 | 0x40);
    assert_eq!(plist_to_executable_segment_flags(&vec![]), 0);
}

#[test]
fn entitlements_der_encoding_is_deterministic() {
    let ents = vec![(b"key".to_vec(), EntitlementValue::Boolean(true))];
    let der = encode_entitlements_der(&ents);
    // SEQUENCE { SEQUENCE { UTF8String "key", BOOLEAN true } }
    assert_eq!(
        der,
        vec![0x30, 0x0a, 0x30, 0x08, 0x0c, 0x03, b'k', b'e', b'y', 0x01, 0x01, 0xff]
    );
}

#[test]
fn macho_target_version_nibbles() {
    assert_eq!(semver_to_macho_target_version(12, 3, 1), 0x000c0301);
    assert_eq!(semver_to_macho_target_version(11, 0, 0), 0x000b0000);
}

#[test]
fn bundle_id_request_urls() {
    let client = AppStoreConnectClient::new();
    let r = client.list_bundle_ids();
    assert_eq!(r.method, HttpMethod::Get);
    assert_eq!(
        r.url,
        b"https://api.appstoreconnect.apple.com/v1/bundleIds".to_vec()
    );
    let r = client.get_bundle_id("ABC123");
    assert_eq!(
        r.url,
        b"https://api.appstoreconnect.apple.com/v1/bundleIds/ABC123".to_vec()
    );
    let r = client.list_bundle_profiles("ABC123");
    assert_eq!(
        r.url,
        b"https://api.appstoreconnect.apple.com/v1/bundleIds/ABC123/profiles".to_vec()
    );
    let r = client.list_bundle_capabilities("ABC123");
    assert_eq!(
        r.url,
        b"https://api.appstoreconnect.apple.com/v1/bundleIds/ABC123/bundleIdCapabilities"
            .to_vec()
    );
    let r = client.delete_bundle_id("ABC123");
    assert_eq!(r.method, HttpMethod::Delete);
    assert_eq!(
        r.url,
        b"https://api.appstoreconnect.apple.com/v1/bundleIds/ABC123".to_vec()
    );
}

#[test]
fn bundle_id_registration_body() {
    let client = AppStoreConnectClient::new();
    let (req, body) = client.register_bundle_id("com.example.app", "Example");
    assert_eq!(req.method, HttpMethod::Post);
    assert_eq!(body.data.attributes.identifier, b"com.example.app".to_vec());
    assert_eq!(body.data.attributes.name, b"Example".to_vec());
    assert_eq!(body.data.attributes.platform, b"UNIVERSAL".to_vec());
    assert_eq!(body.data.kind, b"bundleIds".to_vec());
}

#[test]
fn bundle_capability_body() {
    let client = AppStoreConnectClient::new();
    let (req, body) = client.enable_bundle_id_capability(
        "ABC123",
        BundleIdCapabilityCreateRequestDataAttributes {
            capability_type: b"PUSH_NOTIFICATIONS".to_vec(),
        },
    );
    assert_eq!(req.method, HttpMethod::Post);
    assert_eq!(
        req.url,
        b"https://api.appstoreconnect.apple.com/v1/bundleIdCapabilities".to_vec()
    );
    assert_eq!(
        body.data.attributes.capability_type,
        b"PUSH_NOTIFICATIONS".to_vec()
    );
    assert_eq!(body.data.relationships.bundle_id.data.id, b"ABC123".to_vec());
    assert_eq!(body.data.relationships.bundle_id.data.kind, b"bundleIds".to_vec());
    assert_eq!(body.data.kind, b"bundleIdCapabilities".to_vec());
}

#[test]
fn bundle_platform_names() {
    assert_eq!(BundleIdPlatform::Ios.name(), b"IOS".to_vec());
    assert_eq!(BundleIdPlatform::MacOs.name(), b"MAC_OS".to_vec());
}
