//! Trusted access to the `url` crate: parsing a string as an absolute URL
//! and joining a base URL with a relative path.  Both results are functions
//! of their string arguments alone, so they are given names that the rest of
//! the library's contracts speak of.

use vstd::prelude::*;

verus! {

/// What parsing `s` as an absolute URL yields: its serialization, or nothing.
pub uninterp spec fn url_normalize(s: Seq<char>) -> Option<Seq<char>>;

/// Relies on `url::Url::parse`: whether a string parses as an absolute URL,
/// and the parsed URL's serialization, depend on the string alone.
#[verifier::external_body]
pub(crate) fn parse_absolute_url(s: &str) -> (r: Option<String>)
    ensures
        match r {
            Some(u) => url_normalize(s@) == Some(u@),
            None => url_normalize(s@) is None,
        },
{
    match url::Url::parse(s) {
        Ok(u) => Some(String::from(u.as_str())),
        Err(_) => None,
    }
}

/// What joining `path` onto the absolute URL `base` yields: the joined
/// URL's serialization, or nothing when either step fails.
pub uninterp spec fn url_join(base: Seq<char>, path: Seq<char>) -> Option<Seq<char>>;

/// Relies on `url::Url::parse` and `url::Url::join`: the joined absolute
/// URL depends on the two strings alone.
#[verifier::external_body]
pub(crate) fn join_url(base: &str, path: &str) -> (r: Option<String>)
    ensures
        match r {
            Some(u) => url_join(base@, path@) == Some(u@),
            None => url_join(base@, path@) is None,
        },
{
    match url::Url::parse(base) {
        Ok(b) => match b.join(path) {
            Ok(u) => Some(String::from(u.as_str())),
            Err(_) => None,
        },
        Err(_) => None,
    }
}

} // verus!
