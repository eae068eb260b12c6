//! The `url` crate's `Url`, as far as this library reads it.

use vstd::prelude::*;

verus! {

/// `url::Url` is carried through the library as an opaque value.
#[verifier::external_type_specification]
#[verifier::external_body]
pub struct ExUrl(url::Url);

/// `url::ParseError` is carried through as an opaque value.
#[verifier::external_type_specification]
#[verifier::external_body]
pub struct ExParseError(url::ParseError);

/// The serialization of a URL, as `url::Url::as_str` gives it.
pub uninterp spec fn url_text(url: url::Url) -> Seq<char>;

/// The scheme of a URL, as `url::Url::scheme` gives it.
pub uninterp spec fn url_scheme_text(url: url::Url) -> Seq<char>;

/// The serialization of the URL that `url::Url::parse` makes of a text, or
/// `None` when it refuses the text.
pub uninterp spec fn parsed_url_text(input: Seq<char>) -> Option<Seq<char>>;

/// Calls `url::Url::as_str`, the serialization of the URL, and copies it.
/// The text is named `url_text`.
#[verifier::external_body]
pub(crate) fn url_serialization(url: &url::Url) -> (text: String)
    ensures
        text@ == url_text(*url),
{
    url.as_str().to_string()
}

/// Calls `url::Url::scheme` and copies it. The text is named
/// `url_scheme_text`; the crate documents it as lower-cased ASCII without the
/// `':'` delimiter.
#[verifier::external_body]
pub(crate) fn url_scheme(url: &url::Url) -> (scheme: String)
    ensures
        scheme@ == url_scheme_text(*url),
        forall|i: int|
            0 <= i < scheme@.len() ==> {
                let c = #[trigger] scheme@[i];
                &&& c != ':'
                &&& (c as u32) < 128
                &&& !('A' <= c && c <= 'Z')
            },
{
    url.scheme().to_string()
}

/// Calls `url::Url::parse` on `input`: the URL it makes of the text, or the
/// error with which it refuses the text. What it makes is named
/// `parsed_url_text`; nothing is stated of which error it gives.
#[verifier::external_body]
pub(crate) fn parse_url(input: &str) -> (parsed: Result<url::Url, url::ParseError>)
    ensures
        match parsed {
            Ok(u) => parsed_url_text(input@) == Some(url_text(u)),
            Err(_) => parsed_url_text(input@) is None,
        },
{
    url::Url::parse(input)
}

} // verus!
