//! What this crate takes on trust: the calls into `regex`, `url` and the
//! standard library that Verus cannot see into. Nothing here is proved; every
//! other module is.

use vstd::prelude::*;
use vstd::utf8::{encode_utf8, valid_utf8};

verus! {

/// What `regex` decides for a pattern and a text: `None` where the pattern
/// does not compile, otherwise whether it matches somewhere in the text.
pub uninterp spec fn regex_match(pattern: Seq<char>, text: Seq<char>) -> Option<bool>;

/// The host that `url` reads out of a text: `None` where the text does not
/// parse as an absolute URL, or parses to a URL without a host.
pub uninterp spec fn url_host(text: Seq<char>) -> Option<Seq<char>>;

/// `Option<String>` with the string taken by its view.
pub open spec fn text_option_view(o: Option<String>) -> Option<Seq<char>> {
    match o {
        Some(text) => Some(text@),
        None => None,
    }
}

/// Calls `regex::Regex::new` on `pattern` and `regex::Regex::is_match` on
/// `text`. The contract claims only that the outcome is a function of the two
/// strings; it says nothing of which texts a pattern matches.
#[verifier::external_body]
pub(crate) fn pattern_matches(pattern: &str, text: &str) -> (found: Option<bool>)
    ensures
        found == regex_match(pattern@, text@),
{
    match regex::Regex::new(pattern) {
        Ok(re) => Some(re.is_match(text)),
        Err(_) => None,
    }
}

/// Calls `url::Url::parse` on `text` and `url::Url::host_str` on what it
/// gives. The contract claims only that the outcome is a function of the
/// text; it says nothing of what a well-formed URL is.
#[verifier::external_body]
pub(crate) fn parsed_host(text: &str) -> (host: Option<String>)
    ensures
        text_option_view(host) == url_host(text@),
{
    match url::Url::parse(text) {
        Ok(parsed) => parsed.host_str().map(String::from),
        Err(_) => None,
    }
}

/// The error of `String::from_utf8`, carried through and never looked into.
#[verifier::external_type_specification]
#[verifier::external_body]
pub struct ExFromUtf8Error(std::string::FromUtf8Error);

/// `String::from_utf8` succeeds exactly on well-formed UTF-8, and the string
/// it gives is made of the very bytes it was given.
pub assume_specification[ String::from_utf8 ](vec: Vec<u8>) -> (res: Result<
    String,
    std::string::FromUtf8Error,
>)
    ensures
        res is Ok <==> valid_utf8(vec@),
        res matches Ok(text) ==> encode_utf8(text@) == vec@,
;

} // verus!
