//! Checking a request to switch the HTTP provider.

use vstd::prelude::*;

use crate::endpoint::{parse_url, parsed_url_text, url_text};

verus! {

/// Why a new HTTP provider cannot be taken up.
#[derive(Clone, Copy, Debug, PartialEq, Eq)]
pub enum ProviderUpdateError {
    /// The client was made without an HTTP provider.
    NotConfigured,
    /// The text is not a URL; the parser's error says why.
    InvalidUrl(url::ParseError),
}

/// The URL of the new HTTP provider named by `input`: refused when the
/// client has no HTTP provider to replace, and when the text is not a URL.
pub fn provider_url(configured: bool, input: &str) -> (r: Result<url::Url, ProviderUpdateError>)
    ensures
        !configured ==> r == Err::<url::Url, ProviderUpdateError>(ProviderUpdateError::NotConfigured),
        configured ==> match r {
            Ok(u) => parsed_url_text(input@) == Some(url_text(u)),
            Err(e) => e is InvalidUrl && parsed_url_text(input@) is None,
        },
{
    if !configured {
        return Err(ProviderUpdateError::NotConfigured);
    }
    match parse_url(input) {
        Ok(u) => Ok(u),
        Err(err) => Err(ProviderUpdateError::InvalidUrl(err)),
    }
}

} // verus!
