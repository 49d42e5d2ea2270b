//! The bearer token, as obtained from an already authenticated helper.

use crate::error::{AssetError, AssetErrorView};
use crate::text::{is_whitespace, to_chars, trim, trim_bounds, trim_start};
use vstd::prelude::*;
use vstd::string::StringExecFns;
use vstd::utf8::{decode_utf8, valid_utf8};

verus! {

/// How one run of the authentication helper ended.
pub enum HelperOutcome {
    /// The helper could not be started; the cause is attached.
    Unavailable(String),
    /// The helper ran to its end.
    Exited {
        /// Whether it reported success.
        success: bool,
        /// What it wrote to standard output.
        stdout: Vec<u8>,
        /// Its diagnostic text.
        stderr: String,
    },
}

/// The token that a successful helper run printed: its output, decoded and
/// trimmed. `None` where the output is not UTF-8 or holds only whitespace.
pub open spec fn printed_token(stdout: Seq<u8>) -> Option<Seq<char>> {
    if valid_utf8(stdout) && trim(decode_utf8(stdout)).len() > 0 {
        Some(trim(decode_utf8(stdout)))
    } else {
        None
    }
}

/// What a helper run yields: the token, or the reason why there is none.
pub open spec fn helper_verdict(outcome: HelperOutcome) -> Result<Seq<char>, AssetErrorView> {
    match outcome {
        HelperOutcome::Unavailable(cause) => Err(AssetErrorView::AuthUnavailable(cause@)),
        HelperOutcome::Exited { success, stdout, stderr } => {
            if !success {
                Err(AssetErrorView::AuthDenied(stderr@))
            } else {
                match printed_token(stdout@) {
                    Some(token) => Ok(token),
                    None => Err(AssetErrorView::AuthEmpty),
                }
            }
        },
    }
}

/// A bearer token. It is never empty and carries no surrounding whitespace.
pub struct GitHubAuth {
    token: String,
}

impl View for GitHubAuth {
    type V = Seq<char>;

    closed spec fn view(&self) -> Seq<char> {
        self.token@
    }
}

/// A credential result with both sides taken by their views.
pub open spec fn auth_result_view(r: Result<GitHubAuth, AssetError>) -> Result<
    Seq<char>,
    AssetErrorView,
> {
    match r {
        Ok(auth) => Ok(auth@),
        Err(e) => Err(e@),
    }
}

impl GitHubAuth {
    #[verifier::type_invariant]
    spec fn well_formed(self) -> bool {
        self.token@.len() > 0 && trim(self.token@) == self.token@
    }

    /// Reads the token out of a helper run.
    pub fn new(outcome: HelperOutcome) -> (r: Result<GitHubAuth, AssetError>)
        ensures
            auth_result_view(r) == helper_verdict(outcome),
    {
        match outcome {
            HelperOutcome::Unavailable(cause) => Err(AssetError::AuthUnavailable(cause)),
            HelperOutcome::Exited { success, stdout, stderr } => {
                if !success {
                    return Err(AssetError::AuthDenied(stderr));
                }
                let ghost bytes = stdout@;
                match String::from_utf8(stdout) {
                    Err(_) => Err(AssetError::AuthEmpty),
                    Ok(text) => {
                        proof {
                            vstd::utf8::encode_utf8_decode_utf8(text@);
                        }
                        let chars = to_chars(text.as_str());
                        let (lo, hi) = trim_bounds(chars.as_slice());
                        if lo == hi {
                            Err(AssetError::AuthEmpty)
                        } else {
                            let token = String::from_str(text.as_str().substring_char(lo, hi));
                            assert(trim(token@) == token@) by {
                                assert(!is_whitespace(token@.first()));
                                assert(!is_whitespace(token@.last()));
                                assert(trim_start(token@) == token@);
                            }
                            Ok(GitHubAuth { token })
                        }
                    },
                }
            },
        }
    }

    /// The token.
    pub fn get_token(&self) -> (token: &str)
        ensures
            token@ == self@,
            token@.len() > 0,
            trim(token@) == token@,
    {
        proof {
            use_type_invariant(self);
        }
        self.token.as_str()
    }
}

} // verus!
