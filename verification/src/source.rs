//! The source of a download: an asset identifier or an asset URL.
//!
//! Both rules end in one question put to another crate: whether a pattern
//! matches, or which host a URL has. The contracts speak of those answers by
//! name (`regex_match`, `url_host`) and pin down everything around them.

use crate::downloader::AssetDownloader;
use crate::error::{text_result_view, AssetError, AssetErrorView};
use crate::outside::{parsed_host, pattern_matches, regex_match, url_host};
use crate::text::{contains_str, find_char, find_chars, has_prefix, to_chars};
use vstd::prelude::*;
use vstd::slice::slice_subrange;
use vstd::string::StringExecFns;

verus! {

/// The strict shape of an identifier: five groups of 8, 4, 4, 4 and 12
/// hexadecimal digits, with hyphens between them.
pub const STRICT_ID_PATTERN: &'static str =
    "^[a-fA-F0-9]{8}-[a-fA-F0-9]{4}-[a-fA-F0-9]{4}-[a-fA-F0-9]{4}-[a-fA-F0-9]{12}$";

/// The loose shape of an identifier: 20 to 50 letters, digits and hyphens,
/// with a letter or digit at either end.
pub const LOOSE_ID_PATTERN: &'static str = "^[a-zA-Z0-9][a-zA-Z0-9\\-]{18,48}[a-zA-Z0-9]$";

/// What an accepted identifier is appended to.
pub const ASSET_URL_PREFIX: &'static str = "https://github.com/user-attachments/assets/";

/// How a source is to be read.
#[derive(Debug, Clone, Copy, PartialEq, Eq)]
pub enum SourceMode {
    /// The source is an asset identifier.
    AssetId,
    /// The source is an asset URL.
    AssetUrl,
}

/// The identifier holds a hyphen at two places.
pub open spec fn has_two_hyphens(id: Seq<char>) -> bool {
    exists|i: int, j: int| 0 <= i < j < id.len() && id[i] == '-' && id[j] == '-'
}

/// The length of an identifier is in bounds and it holds a hyphen. Without
/// this no pattern is asked.
pub open spec fn is_plausible_id(id: Seq<char>) -> bool {
    20 <= id.len() <= 50 && id.contains('-')
}

/// Whether an identifier is accepted, given what the two patterns said of it:
/// it must be plausible, and match the strict pattern, or match the loose one
/// and hold two hyphens.
pub open spec fn id_accepted(id: Seq<char>, strict: Option<bool>, loose: Option<bool>) -> bool {
    is_plausible_id(id) && (strict == Some(true) || (loose == Some(true) && has_two_hyphens(id)))
}

/// Whether an identifier is accepted.
pub open spec fn is_valid_id(id: Seq<char>) -> bool {
    id_accepted(id, regex_match(STRICT_ID_PATTERN@, id), regex_match(LOOSE_ID_PATTERN@, id))
}

/// The URL of an identifier, or the refusal.
pub open spec fn asset_url_verdict(id: Seq<char>) -> Result<Seq<char>, AssetErrorView> {
    if is_valid_id(id) {
        Ok(ASSET_URL_PREFIX@ + id)
    } else {
        Err(AssetErrorView::InvalidAssetId)
    }
}

/// The source begins with `http://` or `https://`.
pub open spec fn has_web_scheme(source: Seq<char>) -> bool {
    "http://"@.is_prefix_of(source) || "https://"@.is_prefix_of(source)
}

/// Whether a URL is accepted, given the host that was read out of it: it
/// must begin with a web scheme, have a host, and the host must hold `github`.
pub open spec fn url_accepted(source: Seq<char>, host: Option<Seq<char>>) -> bool {
    has_web_scheme(source) && host is Some && contains_str(host->0, "github"@)
}

/// Whether a URL is accepted.
pub open spec fn is_valid_url(source: Seq<char>) -> bool {
    url_accepted(source, url_host(source))
}

/// An accepted URL, unchanged, or the refusal.
pub open spec fn source_url_verdict(source: Seq<char>) -> Result<Seq<char>, AssetErrorView> {
    if is_valid_url(source) {
        Ok(source)
    } else {
        Err(AssetErrorView::InvalidSourceUrl)
    }
}

/// The asset URL that a source stands for, in the given mode.
pub open spec fn source_verdict(mode: SourceMode, source: Seq<char>) -> Result<
    Seq<char>,
    AssetErrorView,
> {
    match mode {
        SourceMode::AssetId => asset_url_verdict(source),
        SourceMode::AssetUrl => source_url_verdict(source),
    }
}

/// An optional string slice taken by its view.
pub open spec fn str_option_view(o: Option<&str>) -> Option<Seq<char>> {
    match o {
        Some(text) => Some(text@),
        None => None,
    }
}

/// No identifier that is too short, too long or without a hyphen is accepted,
/// whatever the patterns say.
pub proof fn lemma_implausible_id_rejected(id: Seq<char>)
    requires
        id.len() < 20 || id.len() > 50 || !id.contains('-'),
    ensures
        !is_valid_id(id),
        asset_url_verdict(id) == Err::<Seq<char>, AssetErrorView>(AssetErrorView::InvalidAssetId),
{
}

/// An accepted identifier yields the fixed prefix followed by the identifier.
pub proof fn lemma_accepted_id_url(id: Seq<char>)
    requires
        is_valid_id(id),
    ensures
        asset_url_verdict(id) == Ok::<Seq<char>, AssetErrorView>(ASSET_URL_PREFIX@ + id),
        20 <= id.len() <= 50,
        id.contains('-'),
{
}

fn holds_two_hyphens(id: &[char]) -> (two: bool)
    ensures
        two == has_two_hyphens(id@),
{
    proof {
        id@.index_of_first_ensures('-');
    }
    match find_char(id, '-') {
        Some(first) => {
            let n: usize = id.len();
            let tail = slice_subrange(id, first + 1, n);
            proof {
                tail@.index_of_first_ensures('-');
            }
            match find_char(tail, '-') {
                Some(next) => {
                    assert(tail@[next as int] == id@[first + 1 + next]);
                    assert(0 <= first < first + 1 + next < id@.len() && id@[first as int] == '-'
                        && id@[first + 1 + next] == '-');
                    true
                },
                None => {
                    assert forall|i: int, j: int|
                        0 <= i < j < id@.len() && id@[i] == '-' implies id@[j] != '-' by {
                        if id@[j] == '-' {
                            assert(first <= i);
                            assert(tail@[j - first - 1] == id@[j]);
                            assert(tail@.contains('-'));
                        }
                    }
                    false
                },
            }
        },
        None => {
            assert forall|i: int, j: int| 0 <= i < j < id@.len() && id@[i] == '-' implies id@[j]
                != '-' by {
                assert(id@.contains(id@[i]));
            }
            false
        },
    }
}

fn plausible_id(id: &[char]) -> (plausible: bool)
    ensures
        plausible == is_plausible_id(id@),
{
    proof {
        id@.index_of_first_ensures('-');
    }
    20 <= id.len() && id.len() <= 50 && find_char(id, '-').is_some()
}

impl AssetDownloader {
    /// Whether an identifier is accepted, given what the strict and the loose
    /// pattern said of it.
    pub fn accepts_asset_id(
        &self,
        asset_id: &str,
        strict: Option<bool>,
        loose: Option<bool>,
    ) -> (accepted: bool)
        ensures
            accepted == id_accepted(asset_id@, strict, loose),
    {
        let owned = to_chars(asset_id);
        let id = owned.as_slice();
        if !plausible_id(id) {
            return false;
        }
        match strict {
            Some(true) => {
                return true;
            },
            _ => {},
        }
        match loose {
            Some(true) => holds_two_hyphens(id),
            _ => false,
        }
    }

    /// Whether an identifier is accepted. The patterns are asked only of a
    /// plausible identifier, and the loose one only where the strict one did
    /// not match.
    pub fn is_valid_asset_id(&self, asset_id: &str) -> (valid: bool)
        ensures
            valid == is_valid_id(asset_id@),
            asset_id@.len() < 20 || asset_id@.len() > 50 || !asset_id@.contains('-') ==> !valid,
    {
        let owned = to_chars(asset_id);
        if !plausible_id(owned.as_slice()) {
            return false;
        }
        let strict = pattern_matches(STRICT_ID_PATTERN, asset_id);
        match strict {
            Some(true) => {
                return true;
            },
            _ => {},
        }
        let loose = pattern_matches(LOOSE_ID_PATTERN, asset_id);
        self.accepts_asset_id(asset_id, strict, loose)
    }

    /// The URL of an asset: the fixed prefix followed by the identifier, for
    /// every accepted identifier and for no other.
    pub fn build_asset_url(&self, asset_id: &str) -> (r: Result<String, AssetError>)
        ensures
            text_result_view(r) == asset_url_verdict(asset_id@),
            asset_id@.len() < 20 || asset_id@.len() > 50 || !asset_id@.contains('-') ==> r == Err::<
                String,
                AssetError,
            >(AssetError::InvalidAssetId),
            r matches Ok(url) ==> url@ == ASSET_URL_PREFIX@ + asset_id@,
    {
        if !self.is_valid_asset_id(asset_id) {
            return Err(AssetError::InvalidAssetId);
        }
        Ok(String::from_str(ASSET_URL_PREFIX).concat(asset_id))
    }

    /// Whether a URL is accepted, given the host that was read out of it.
    pub fn accepts_source_url(&self, source: &str, host: Option<&str>) -> (accepted: bool)
        ensures
            accepted == url_accepted(source@, str_option_view(host)),
    {
        let owned = to_chars(source);
        let text = owned.as_slice();
        if !has_prefix(text, to_chars("http://").as_slice()) && !has_prefix(
            text,
            to_chars("https://").as_slice(),
        ) {
            return false;
        }
        match host {
            Some(name) => find_chars(to_chars(name).as_slice(), to_chars("github").as_slice()).is_some(),
            None => false,
        }
    }

    /// Whether a URL is accepted.
    pub fn is_valid_source_url(&self, source: &str) -> (valid: bool)
        ensures
            valid == is_valid_url(source@),
            !has_web_scheme(source@) ==> !valid,
    {
        let host = parsed_host(source);
        match &host {
            Some(name) => self.accepts_source_url(source, Some(name.as_str())),
            None => self.accepts_source_url(source, None),
        }
    }

    /// The URL of an asset that was given as a URL: the source itself, for
    /// every accepted URL and for no other.
    pub fn build_source_url(&self, source: &str) -> (r: Result<String, AssetError>)
        ensures
            text_result_view(r) == source_url_verdict(source@),
            !has_web_scheme(source@) ==> r == Err::<String, AssetError>(
                AssetError::InvalidSourceUrl,
            ),
    {
        if !self.is_valid_source_url(source) {
            return Err(AssetError::InvalidSourceUrl);
        }
        Ok(String::from_str(source))
    }

    /// The asset URL that a source stands for, in the given mode.
    pub fn resolve_source(&self, mode: SourceMode, source: &str) -> (r: Result<String, AssetError>)
        ensures
            text_result_view(r) == source_verdict(mode, source@),
    {
        match mode {
            SourceMode::AssetId => self.build_asset_url(source),
            SourceMode::AssetUrl => self.build_source_url(source),
        }
    }
}

} // verus!
