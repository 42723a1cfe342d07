//! Publishing a document to a registry: what a registry has to offer,
//! how the publisher's domain is verified, and where the document goes.

use crate::error::CanonError;
use crate::text::{has_prefix, starts_with};
use vstd::prelude::*;
use vstd::string::*;

verus! {

/// What a registry says of itself.
#[derive(Debug, Clone)]
pub struct RegistryCapabilities {
    pub name: String,
    pub url: String,
    pub api_version: String,
    pub read_only: bool,
    pub authentication: Option<AuthenticationConfig>,
    pub verification: Option<VerificationConfig>,
    pub endpoints: EndpointsConfig,
}

/// How a registry authenticates.
#[derive(Debug, Clone)]
pub struct AuthenticationConfig {
    pub required: bool,
    pub methods: Vec<String>,
    pub endpoints: Option<AuthEndpoints>,
}

/// Where a registry authenticates.
#[derive(Debug, Clone)]
pub struct AuthEndpoints {
    pub token: Option<String>,
    pub oauth: Option<String>,
}

/// How a registry verifies that a publisher owns its domain.
#[derive(Debug, Clone)]
pub struct VerificationConfig {
    pub methods: Vec<String>,
    pub dns_txt: Option<DnsVerificationConfig>,
    pub https_file: Option<HttpsVerificationConfig>,
}

/// Verification by a DNS record.
#[derive(Debug, Clone)]
pub struct DnsVerificationConfig {
    pub prefix: String,
    pub format: String,
    pub ttl: Option<u64>,
}

/// Verification by a file served over HTTPS.
#[derive(Debug, Clone)]
pub struct HttpsVerificationConfig {
    pub path: String,
    pub format: String,
}

/// The addresses of a registry.
#[derive(Debug, Clone)]
pub struct EndpointsConfig {
    pub discovery: String,
    pub packages: String,
    pub download: String,
    pub publish: Option<String>,
}

/// The way a publisher's domain is verified.
#[derive(Debug, Clone)]
pub enum VerificationStep {
    /// By the DNS record of this name.
    DnsTxt { record: String },
    /// By the file at this address.
    HttpsFile { url: String },
}

/// Whether `names` holds `name`.
pub open spec fn names_method(names: Seq<Seq<char>>, name: Seq<char>) -> bool {
    exists|i: int| 0 <= i < names.len() && names[i] == name
}

/// Whether the registry verifies by DNS record: it names the method and
/// says how.
pub open spec fn verifies_by_dns(v: VerificationConfig) -> bool {
    names_method(v.methods.deep_view(), "dns-txt"@) && v.dns_txt is Some
}

/// Whether the registry verifies by file: it names the method and says
/// how.
pub open spec fn verifies_by_file(v: VerificationConfig) -> bool {
    names_method(v.methods.deep_view(), "https-file"@) && v.https_file is Some
}

/// Where a document is published: the endpoint itself where it is an
/// address, and otherwise the endpoint below the registry.
pub open spec fn publish_url_of(registry_url: Seq<char>, endpoint: Seq<char>) -> Seq<char> {
    if starts_with(endpoint, "http"@) {
        endpoint
    } else {
        registry_url + endpoint
    }
}

/// Where a document is built before it is published: below the store,
/// under `localhost`, by publisher, id and version.
pub open spec fn build_path_of(
    publisher: Seq<char>,
    id: Seq<char>,
    version: Seq<char>,
) -> Seq<Seq<char>> {
    seq![".canon"@, "localhost"@, publisher, id, version]
}

/// Whether `input` may be the address of a registry: it starts with
/// `https://` or `http://`.
pub fn is_registry_url(input: &str) -> (r: bool)
    ensures
        r == (starts_with(input@, "https://"@) || starts_with(input@, "http://"@)),
{
    has_prefix(input, "https://") || has_prefix(input, "http://")
}

/// The address at which a registry says what it offers.
pub fn discovery_url(registry_url: &str) -> (url: String)
    ensures
        url@ == registry_url@ + "/.well-known/canon-registry"@,
{
    let mut url = String::from_str(registry_url);
    url.append("/.well-known/canon-registry");
    url
}

/// The error for a registry that does not say what it offers.
pub fn discovery_failed(registry_url: &str) -> (e: CanonError)
    ensures
        e matches CanonError::Command { message } && message@
            == "Failed to discover registry capabilities at "@ + registry_url@
            + "/.well-known/canon-registry\nThe registry may not implement the Canon Registry specification."@,
{
    let mut message = String::from_str("Failed to discover registry capabilities at ");
    message.append(registry_url);
    message.append(
        "/.well-known/canon-registry\nThe registry may not implement the Canon Registry specification.",
    );
    CanonError::Command { message }
}

/// Where a document is built before it is published, one segment after
/// the other.
pub fn build_path(publisher: &str, id: &str, version: &str) -> (segments: Vec<String>)
    ensures
        segments.deep_view() == build_path_of(publisher@, id@, version@),
{
    let mut segments: Vec<String> = Vec::new();
    segments.push(String::from_str(".canon"));
    segments.push(String::from_str("localhost"));
    segments.push(String::from_str(publisher));
    segments.push(String::from_str(id));
    segments.push(String::from_str(version));
    assert(segments.deep_view() =~= build_path_of(publisher@, id@, version@));
    segments
}

/// The endpoint that a registry takes publications at. Fails where the
/// registry is read-only, and where it is not but names no such endpoint.
pub fn publish_endpoint(capabilities: &RegistryCapabilities) -> (r: Result<String, CanonError>)
    ensures
        r is Ok <==> !capabilities.read_only && capabilities.endpoints.publish is Some,
        r matches Ok(endpoint) ==> endpoint@ == capabilities.endpoints.publish->Some_0@,
        capabilities.read_only ==> (r matches Err(CanonError::Command { message }) && message@
            == "Registry '"@ + capabilities.name@
            + "' is read-only and does not accept publications"@),
        !capabilities.read_only && capabilities.endpoints.publish is None ==> (r matches Err(
            CanonError::Command { message },
        ) && message@ == "Registry does not provide a publish endpoint"@),
{
    if capabilities.read_only {
        let mut message = String::from_str("Registry '");
        message.append(capabilities.name.as_str());
        message.append("' is read-only and does not accept publications");
        return Err(CanonError::Command { message });
    }
    match &capabilities.endpoints.publish {
        Some(endpoint) => Ok(endpoint.clone()),
        None => Err(
            CanonError::Command {
                message: String::from_str("Registry does not provide a publish endpoint"),
            },
        ),
    }
}

/// Whether a token has to be asked for: the registry requires
/// authentication and none was given.
pub fn token_needed(capabilities: &RegistryCapabilities, token: &Option<String>) -> (r: bool)
    ensures
        r == (capabilities.authentication matches Some(a) && a.required && token is None),
{
    match &capabilities.authentication {
        Some(a) => a.required && token.is_none(),
        None => false,
    }
}

/// Whether `names` holds `name`.
pub fn has_method(names: &Vec<String>, name: &str) -> (r: bool)
    ensures
        r == names_method(names.deep_view(), name@),
{
    let wanted = String::from_str(name);
    let mut i: usize = 0;
    while i < names.len()
        invariant
            i <= names@.len(),
            wanted@ == name@,
            forall|k: int| 0 <= k < i ==> names.deep_view()[k] != name@,
        decreases names@.len() - i,
    {
        assert(names.deep_view()[i as int] == names@[i as int]@);
        if names[i] == wanted {
            return true;
        }
        i += 1;
    }
    false
}

/// The way in which the domain of `publisher` is verified: by DNS record
/// where the registry verifies so, else by file where it verifies so.
/// Fails where it does neither.
pub fn verify_domain_ownership(publisher: &str, verification: &VerificationConfig) -> (r: Result<
    VerificationStep,
    CanonError,
>)
    ensures
        verifies_by_dns(*verification) ==> (r matches Ok(VerificationStep::DnsTxt { record })
            && record@ == verification.dns_txt->Some_0.prefix@ + "."@ + publisher@),
        !verifies_by_dns(*verification) && verifies_by_file(*verification) ==> (r matches Ok(
            VerificationStep::HttpsFile { url },
        ) && url@ == "https://"@ + publisher@ + verification.https_file->Some_0.path@),
        !verifies_by_dns(*verification) && !verifies_by_file(*verification) ==> (r matches Err(
            CanonError::Command { message },
        ) && message@ == "No supported verification method available"@),
{
    if has_method(&verification.methods, "dns-txt") {
        if let Some(dns) = &verification.dns_txt {
            let mut record = dns.prefix.clone();
            record.append(".");
            record.append(publisher);
            return Ok(VerificationStep::DnsTxt { record });
        }
    }
    if has_method(&verification.methods, "https-file") {
        if let Some(file) = &verification.https_file {
            let mut url = String::from_str("https://");
            url.append(publisher);
            url.append(file.path.as_str());
            return Ok(VerificationStep::HttpsFile { url });
        }
    }
    Err(
        CanonError::Command {
            message: String::from_str("No supported verification method available"),
        },
    )
}

/// Where a document is published.
pub fn publish_url(registry_url: &str, publish_endpoint: &str) -> (url: String)
    ensures
        url@ == publish_url_of(registry_url@, publish_endpoint@),
{
    if has_prefix(publish_endpoint, "http") {
        String::from_str(publish_endpoint)
    } else {
        let mut url = String::from_str(registry_url);
        url.append(publish_endpoint);
        url
    }
}

/// The authorization that carries a token.
pub fn bearer(token: &str) -> (header: String)
    ensures
        header@ == "Bearer "@ + token@,
{
    let mut header = String::from_str("Bearer ");
    header.append(token);
    header
}

/// The error for a publication that the registry refused.
pub fn publication_failed(status: &str, body: &str) -> (e: CanonError)
    ensures
        e matches CanonError::Network { message } && message@ == "Publication failed (status: "@
            + status@ + "): "@ + body@,
{
    let mut message = String::from_str("Publication failed (status: ");
    message.append(status);
    message.append("): ");
    message.append(body);
    CanonError::Network { message }
}

} // verus!
