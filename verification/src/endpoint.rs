//! The address of the API: the base URL of the installation joined with the path under
//! which it takes contacts.

use vstd::prelude::*;
use crate::status::Fatal;

verus! {

/// The error of the `url` crate's parser. Nothing of it is read here.
#[verifier::external_type_specification]
#[verifier::external_body]
pub struct ExParseError(url::ParseError);

/// The text of the URL that the `url` crate gives for `path` taken relative to `base`,
/// or `None` where it refuses one of the two.
pub uninterp spec fn url_joined(base: Seq<char>, path: Seq<char>) -> Option<Seq<char>>;

/// `url::Url::parse` on `base`, then `url::Url::join` with `path`. The result depends
/// on the two texts alone: either the text of the joined URL, or the parser's error.
/// Which URLs are accepted, and what the joined text is, is left to `url`.
#[verifier::external_body]
fn join_url(base: &str, path: &str) -> (joined: Result<String, url::ParseError>)
    ensures
        match joined {
            Ok(text) => url_joined(base@, path@) == Some(text@),
            Err(_) => url_joined(base@, path@) is None,
        },
{
    Ok(String::from(url::Url::parse(base)?.join(path)?))
}

/// The path, relative to the base URL, under which the API takes contacts.
pub fn api_path() -> (path: &'static str)
    ensures
        path@ == "api/qso"@,
{
    "api/qso"
}

/// A base URL that gives no address, with what the `url` crate said of it.
#[derive(Debug, Clone, Copy, PartialEq, Eq)]
pub struct BadUrl {
    /// The parser's error.
    pub cause: url::ParseError,
}

impl BadUrl {
    /// The failure that this is to the process.
    pub fn fatal(&self) -> (fatal: Fatal)
        ensures
            fatal == Fatal::BadUrl,
    {
        Fatal::BadUrl
    }
}

/// The address to send records to, for an installation at `base`. Where the `url` crate
/// refuses the base URL, its error is handed on.
pub fn api_uri(base: &str) -> (uri: Result<String, BadUrl>)
    ensures
        match uri {
            Ok(text) => url_joined(base@, "api/qso"@) == Some(text@),
            Err(_) => url_joined(base@, "api/qso"@) is None,
        },
{
    match join_url(base, api_path()) {
        Ok(text) => Ok(text),
        Err(cause) => Err(BadUrl { cause }),
    }
}

} // verus!
