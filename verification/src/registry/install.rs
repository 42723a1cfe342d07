//! Installing from a registry: the registry that an address belongs to.

use crate::error::CanonError;
use vstd::prelude::*;
use vstd::string::*;

verus! {

/// Whether `address` parses as an absolute URL.
pub uninterp spec fn url_parses(address: Seq<char>) -> bool;

/// The host of the absolute URL `address`, where it has one.
pub uninterp spec fn url_host(address: Seq<char>) -> Option<Seq<char>>;

/// The text that says why `address` does not parse as an absolute URL.
pub uninterp spec fn url_error_text(address: Seq<char>) -> Seq<char>;

/// `Url::parse` and `Url::host_str` of the url crate, and `Display` of its
/// `ParseError`: the text is parsed as an absolute URL; where that
/// succeeds its host is read, and where it fails the error is shown as
/// text. Whether the text parses, what the host is and what the error
/// says depend on the text alone.
#[verifier::external_body]
fn parse_host(address: &str) -> (r: Result<Option<String>, String>)
    ensures
        r is Ok <==> url_parses(address@),
        r matches Ok(host) ==> host.deep_view() == url_host(address@),
        r matches Err(text) ==> text@ == url_error_text(address@),
{
    match url::Url::parse(address) {
        Ok(parsed) => Ok(parsed.host_str().map(String::from)),
        Err(e) => Err(format!("{}", e)),
    }
}

/// The error for an address that is no absolute URL, given the text that
/// says why.
pub open spec fn invalid_url_text(reason: Seq<char>) -> Seq<char> {
    "Invalid registry URL: "@ + reason
}

/// The registry's domain, given what parsing its address came to: the
/// host, as far as the address has one, or the text that says why the
/// address did not parse.
pub fn domain_of_host(parsed: Result<Option<String>, String>) -> (r: Result<String, CanonError>)
    ensures
        match parsed {
            Ok(Some(host)) => r matches Ok(domain) && domain@ == host@,
            Ok(None) => r matches Err(CanonError::Config { message }) && message@
                == "Registry URL must have a host"@,
            Err(reason) => r matches Err(CanonError::Config { message }) && message@
                == invalid_url_text(reason@),
        },
{
    match parsed {
        Ok(Some(host)) => Ok(host),
        Ok(None) => Err(
            CanonError::Config { message: String::from_str("Registry URL must have a host") },
        ),
        Err(reason) => {
            let mut message = String::from_str("Invalid registry URL: ");
            message.append(reason.as_str());
            Err(CanonError::Config { message })
        },
    }
}

/// The domain of the registry at `address`: the host of the address.
///
/// Fails with a configuration error where the text is no absolute URL,
/// and where the URL has no host.
pub fn extract_domain(address: &str) -> (r: Result<String, CanonError>)
    ensures
        if !url_parses(address@) {
            r matches Err(CanonError::Config { message }) && message@ == invalid_url_text(
                url_error_text(address@),
            )
        } else {
            match url_host(address@) {
                Some(h) => r matches Ok(domain) && domain@ == h,
                None => r matches Err(CanonError::Config { message }) && message@
                    == "Registry URL must have a host"@,
            }
        },
{
    domain_of_host(parse_host(address))
}

} // verus!
