//! The downloader: a credential, and the rules of one download as its methods.
//!
//! The methods are spread over the modules that hold their rules.

use crate::auth::{helper_verdict, GitHubAuth, HelperOutcome};
use crate::error::{AssetError, AssetErrorView};
use vstd::prelude::*;
use vstd::string::StringExecFns;

verus! {

/// Downloads one asset with one credential.
pub struct AssetDownloader {
    auth: GitHubAuth,
}

/// A downloader result with both sides taken by their views: the token that
/// the downloader holds, or the error.
pub open spec fn downloader_result_view(r: Result<AssetDownloader, AssetError>) -> Result<
    Seq<char>,
    AssetErrorView,
> {
    match r {
        Ok(downloader) => Ok(downloader.token()),
        Err(e) => Err(e@),
    }
}

impl AssetDownloader {
    /// The token that this downloader sends.
    pub closed spec fn token(&self) -> Seq<char> {
        self.auth@
    }

    /// A downloader for the credential that a helper run gave.
    pub fn new(outcome: HelperOutcome) -> (r: Result<AssetDownloader, AssetError>)
        ensures
            downloader_result_view(r) == helper_verdict(outcome),
    {
        match GitHubAuth::new(outcome) {
            Ok(auth) => Ok(AssetDownloader { auth }),
            Err(e) => Err(e),
        }
    }

    /// The credential.
    pub fn auth(&self) -> (auth: &GitHubAuth)
        ensures
            auth@ == self.token(),
    {
        &self.auth
    }

    /// The value of the `Authorization` header: the word `token`, a space, the token.
    pub fn authorization(&self) -> (value: String)
        ensures
            value@ == "token "@ + self.token(),
    {
        String::from_str("token ").concat(self.auth.get_token())
    }

    /// Whether a response to the download request carries the asset:
    /// any status outside 200..=299 is an error that names the status.
    pub fn check_response_status(&self, status: u16) -> (r: Result<(), AssetError>)
        ensures
            200 <= status <= 299 ==> r == Ok::<(), AssetError>(()),
            !(200 <= status <= 299) ==> r == Err::<(), AssetError>(
                AssetError::HttpError { status },
            ),
    {
        if 200 <= status && status <= 299 {
            Ok(())
        } else {
            Err(AssetError::HttpError { status })
        }
    }
}

} // verus!
