//! Classifying a user-supplied location string: a supported remote
//! repository to acquire into an ephemeral workspace, a local path taken
//! verbatim, or an unsupported URL, which is refused.
//!
//! The caller performs the acquisition itself; the library only decides
//! which kind of location it was handed.
use vstd::prelude::*;
use vstd::string::StringExecFns;

use crate::TechDocsError;

verus! {

/// Whether a location string parses as an absolute URL.
pub uninterp spec fn url_parses(s: Seq<char>) -> bool;

/// The scheme of a location string that parses as a URL, as the parser
/// normalises it.
pub uninterp spec fn url_scheme(s: Seq<char>) -> Seq<char>;

/// The host of a location string that parses as a URL, when it has one,
/// as the parser normalises it.
pub uninterp spec fn url_host(s: Seq<char>) -> Option<Seq<char>>;

/// Relies on url::Url::parse, Url::scheme and Url::host_str: whether a
/// string parses, and the scheme and host it then has, are functions of
/// the string alone.
#[verifier::external_body]
fn parse_url_parts(s: &str) -> (r: Option<(String, Option<String>)>)
    ensures
        r is Some <==> url_parses(s@),
        match r {
            Some(parts) => parts.0@ == url_scheme(s@) && parts.1.deep_view() == url_host(s@),
            None => true,
        },
{
    match url::Url::parse(s) {
        Ok(u) => Some((u.scheme().to_string(), u.host_str().map(|h| h.to_string()))),
        Err(_) => None,
    }
}

/// What kind of location a string denotes.
#[derive(Clone, Copy, PartialEq, Eq, Debug)]
pub enum LocationKind {
    /// A recognised remote repository, to be cloned into a freshly
    /// created ephemeral workspace that its owner deletes afterwards.
    RemoteRepository,
    /// A local filesystem path, taken verbatim and not owned by the
    /// operation.
    LocalPath,
}

/// The location is a URL of the one supported remote hosting service.
pub open spec fn is_supported_remote(s: Seq<char>) -> bool {
    &&& url_parses(s)
    &&& url_scheme(s) == "https"@
    &&& url_host(s) == Some("github.com"@)
}

/// Decide what a location string denotes: a supported remote repository
/// URL is acquired remotely; a string that is no URL at all is a local
/// path; a URL of any other scheme or host is refused.
pub fn classify_location(s: &str) -> (r: Result<LocationKind, TechDocsError>)
    ensures
        r is Ok <==> (is_supported_remote(s@) || !url_parses(s@)),
        is_supported_remote(s@) ==> r == Result::<LocationKind, TechDocsError>::Ok(
            LocationKind::RemoteRepository,
        ),
        !url_parses(s@) ==> r == Result::<LocationKind, TechDocsError>::Ok(
            LocationKind::LocalPath,
        ),
        r is Err ==> r->Err_0 is Url && r->Err_0->Url_0@ == "Only GitHub URLs are supported"@,
{
    match parse_url_parts(s) {
        Some((scheme, host)) => {
            let scheme_ok = scheme == String::from_str("https");
            let host_ok = match &host {
                Some(h) => *h == String::from_str("github.com"),
                None => false,
            };
            if scheme_ok && host_ok {
                Ok(LocationKind::RemoteRepository)
            } else {
                Err(TechDocsError::Url(String::from_str("Only GitHub URLs are supported")))
            }
        },
        None => Ok(LocationKind::LocalPath),
    }
}

} // verus!
