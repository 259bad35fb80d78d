//! App Store Connect bundle-id requests.
//!
//! The client here plans the HTTP requests: it builds the URLs and the
//! typed request bodies, with every string held as UTF-8 bytes. The
//! transport and the JSON encoding live outside the library and take
//! these plain values.

use vstd::prelude::*;

use crate::bytes::push_bytes;
use crate::entitlements::bytes_of_str;
use vstd::string::StringSliceAdditionalSpecFns;

verus! {

/// The HTTP method of a planned request.
#[derive(Clone, Copy, Debug, PartialEq, Eq, Structural)]
pub enum HttpMethod {
    Get,
    Post,
    Delete,
}

/// A planned request: method and URL; the body travels separately as
/// a typed value.
#[derive(Debug)]
pub struct ApiRequest {
    pub method: HttpMethod,
    pub url: Vec<u8>,
}

#[derive(Debug)]
pub struct BundleIdCreateRequest {
    pub data: BundleIdCreateRequestData,
}

#[derive(Debug)]
pub struct BundleIdCreateRequestData {
    pub attributes: BundleIdCreateRequestAttributes,
    pub kind: Vec<u8>,
}

#[derive(Debug)]
pub struct BundleIdCreateRequestAttributes {
    pub identifier: Vec<u8>,
    pub name: Vec<u8>,
    pub platform: Vec<u8>,
}

/// The platform of a bundle id.
#[derive(Clone, Copy, Debug, PartialEq, Eq, Structural)]
pub enum BundleIdPlatform {
    Ios,
    MacOs,
}

impl BundleIdPlatform {
    /// The name the service uses for this platform.
    pub fn name(&self) -> (r: Vec<u8>)
        ensures
            r@ == (match self {
                BundleIdPlatform::Ios => "IOS".spec_bytes(),
                BundleIdPlatform::MacOs => "MAC_OS".spec_bytes(),
            }),
    {
        match self {
            BundleIdPlatform::Ios => bytes_of_str("IOS"),
            BundleIdPlatform::MacOs => bytes_of_str("MAC_OS"),
        }
    }
}

#[derive(Debug)]
pub struct BundleIdResponse {
    pub data: BundleId,
}

#[derive(Debug)]
pub struct BundleIdsResponse {
    pub data: Vec<BundleId>,
}

#[derive(Debug)]
pub struct BundleId {
    pub attributes: BundleIdAttributes,
    pub id: Vec<u8>,
}

#[derive(Debug)]
pub struct BundleIdAttributes {
    pub identifier: Vec<u8>,
    pub name: Vec<u8>,
    pub platform: Vec<u8>,
    pub seed_id: Vec<u8>,
}

#[derive(Debug)]
pub struct BundleCapabilitiesResponse {
    pub data: Vec<BundleCapability>,
}

#[derive(Debug)]
pub struct BundleCapability {
    pub attributes: BundleCapabilityAttributes,
    pub id: Vec<u8>,
}

#[derive(Debug)]
pub struct BundleCapabilityAttributes {
    pub capability_type: Vec<u8>,
}

#[derive(Debug)]
pub struct BundleIdCapabilityCreateRequest {
    pub data: BundleIdCapabilityCreateRequestData,
}

#[derive(Debug)]
pub struct BundleIdCapabilityCreateRequestData {
    pub attributes: BundleIdCapabilityCreateRequestDataAttributes,
    pub relationships: BundleIdCapabilityCreateRequestDataRelationships,
    pub kind: Vec<u8>,
}

#[derive(Debug)]
pub struct BundleIdCapabilityCreateRequestDataAttributes {
    pub capability_type: Vec<u8>,
}

#[derive(Debug)]
pub struct BundleIdCapabilityCreateRequestDataRelationships {
    pub bundle_id: BundleIdCapabilityCreateRequestDataRelationshipBundleId,
}

#[derive(Debug)]
pub struct BundleIdCapabilityCreateRequestDataRelationshipBundleId {
    pub data: BundleIdCapabilityCreateRequestDataRelationshipBundleIdData,
}

#[derive(Debug)]
pub struct BundleIdCapabilityCreateRequestDataRelationshipBundleIdData {
    pub id: Vec<u8>,
    pub kind: Vec<u8>,
}

/// Plans bundle-id requests against the App Store Connect API.
pub struct AppStoreConnectClient {}

/// The URL of the bundle-ids collection.
pub open spec fn spec_bundle_ids_url() -> Seq<u8> {
    "https://api.appstoreconnect.apple.com/v1/bundleIds".spec_bytes()
}

/// The URL of the bundle-id-capabilities collection.
pub open spec fn spec_bundle_capabilities_url() -> Seq<u8> {
    "https://api.appstoreconnect.apple.com/v1/bundleIdCapabilities".spec_bytes()
}

/// The URL naming one bundle id.
pub open spec fn spec_bundle_id_url(id: Seq<u8>) -> Seq<u8> {
    spec_bundle_ids_url() + seq![47u8] + id
}

/// Build the URL naming one bundle id.
fn bundle_id_url(id: &str) -> (r: Vec<u8>)
    ensures
        r@ == spec_bundle_id_url(id.spec_bytes()),
{
    let mut url = bytes_of_str("https://api.appstoreconnect.apple.com/v1/bundleIds");
    url.push(47);
    let idb = bytes_of_str(id);
    push_bytes(&mut url, &idb);
    proof {
        assert(url@ =~= spec_bundle_id_url(id.spec_bytes()));
    }
    url
}

impl AppStoreConnectClient {
    /// A request planner.
    pub fn new() -> (r: AppStoreConnectClient) {
        AppStoreConnectClient {}
    }

    /// Plan the registration of a new bundle id: a POST of a typed
    /// body carrying the identifier and name under the universal
    /// platform.
    pub fn register_bundle_id(&self, identifier: &str, name: &str) -> (r: (
        ApiRequest,
        BundleIdCreateRequest,
    ))
        ensures
            r.0.method == HttpMethod::Post,
            r.0.url@ == spec_bundle_ids_url(),
            r.1.data.attributes.identifier@ == identifier.spec_bytes(),
            r.1.data.attributes.name@ == name.spec_bytes(),
            r.1.data.attributes.platform@ == "UNIVERSAL".spec_bytes(),
            r.1.data.kind@ == "bundleIds".spec_bytes(),
    {
        let body = BundleIdCreateRequest {
            data: BundleIdCreateRequestData {
                attributes: BundleIdCreateRequestAttributes {
                    identifier: bytes_of_str(identifier),
                    name: bytes_of_str(name),
                    platform: bytes_of_str("UNIVERSAL"),
                },
                kind: bytes_of_str("bundleIds"),
            },
        };
        let req = ApiRequest {
            method: HttpMethod::Post,
            url: bytes_of_str("https://api.appstoreconnect.apple.com/v1/bundleIds"),
        };
        (req, body)
    }

    /// Plan the listing of all bundle ids.
    pub fn list_bundle_ids(&self) -> (r: ApiRequest)
        ensures
            r.method == HttpMethod::Get,
            r.url@ == spec_bundle_ids_url(),
    {
        ApiRequest {
            method: HttpMethod::Get,
            url: bytes_of_str("https://api.appstoreconnect.apple.com/v1/bundleIds"),
        }
    }

    /// Plan fetching one bundle id.
    pub fn get_bundle_id(&self, id: &str) -> (r: ApiRequest)
        ensures
            r.method == HttpMethod::Get,
            r.url@ == spec_bundle_id_url(id.spec_bytes()),
    {
        ApiRequest { method: HttpMethod::Get, url: bundle_id_url(id) }
    }

    /// Plan listing the profiles of one bundle id.
    pub fn list_bundle_profiles(&self, id: &str) -> (r: ApiRequest)
        ensures
            r.method == HttpMethod::Get,
            r.url@ == spec_bundle_id_url(id.spec_bytes()) + "/profiles".spec_bytes(),
    {
        let mut url = bundle_id_url(id);
        let tail = bytes_of_str("/profiles");
        push_bytes(&mut url, &tail);
        ApiRequest { method: HttpMethod::Get, url }
    }

    /// Plan listing the capabilities of one bundle id.
    pub fn list_bundle_capabilities(&self, id: &str) -> (r: ApiRequest)
        ensures
            r.method == HttpMethod::Get,
            r.url@ == spec_bundle_id_url(id.spec_bytes()) + "/bundleIdCapabilities".spec_bytes(),
    {
        let mut url = bundle_id_url(id);
        let tail = bytes_of_str("/bundleIdCapabilities");
        push_bytes(&mut url, &tail);
        ApiRequest { method: HttpMethod::Get, url }
    }

    /// Plan enabling a capability on one bundle id: a POST of a typed
    /// body linking the capability to the bundle id.
    pub fn enable_bundle_id_capability(
        &self,
        id: &str,
        capability: BundleIdCapabilityCreateRequestDataAttributes,
    ) -> (r: (ApiRequest, BundleIdCapabilityCreateRequest))
        ensures
            r.0.method == HttpMethod::Post,
            r.0.url@ == spec_bundle_capabilities_url(),
            r.1.data.attributes.capability_type@ == capability.capability_type@,
            r.1.data.relationships.bundle_id.data.id@ == id.spec_bytes(),
            r.1.data.relationships.bundle_id.data.kind@ == "bundleIds".spec_bytes(),
            r.1.data.kind@ == "bundleIdCapabilities".spec_bytes(),
    {
        let body = BundleIdCapabilityCreateRequest {
            data: BundleIdCapabilityCreateRequestData {
                attributes: capability,
                relationships: BundleIdCapabilityCreateRequestDataRelationships {
                    bundle_id: BundleIdCapabilityCreateRequestDataRelationshipBundleId {
                        data: BundleIdCapabilityCreateRequestDataRelationshipBundleIdData {
                            id: bytes_of_str(id),
                            kind: bytes_of_str("bundleIds"),
                        },
                    },
                },
                kind: bytes_of_str("bundleIdCapabilities"),
            },
        };
        let req = ApiRequest {
            method: HttpMethod::Post,
            url: bytes_of_str("https://api.appstoreconnect.apple.com/v1/bundleIdCapabilities"),
        };
        (req, body)
    }

    /// Plan deleting one bundle id.
    pub fn delete_bundle_id(&self, id: &str) -> (r: ApiRequest)
        ensures
            r.method == HttpMethod::Delete,
            r.url@ == spec_bundle_id_url(id.spec_bytes()),
    {
        ApiRequest { method: HttpMethod::Delete, url: bundle_id_url(id) }
    }
}

} // verus!
