use vstd::prelude::*;
use vstd::string::StringExecFns;
use crate::error::NodegetError;
use crate::text::str_equal;
use crate::token_auth::TokenOrAuth;

verus! {

/// The credential columns of a stored token: its key, the hash of its
/// secret, and, for a login, the username and the hash of the password.
#[derive(Debug, Clone, PartialEq, Eq)]
pub struct StoredCredential {
    pub token_key: String,
    pub token_hash: String,
    pub username: Option<String>,
    pub password_hash: Option<String>,
}

/// `stored` holds the text `text`.
pub open spec fn option_text_is(stored: Option<String>, text: Seq<char>) -> bool {
    stored matches Some(s) && s@ == text
}

/// The outcome of checking a presented credential against the stored token
/// found for it (by key for `key:secret`, by username for
/// `username|password`); `presented_hash` is the hash of the presented
/// secret or password. `Err((true, m))` is a not-found error and
/// `Err((false, m))` a refusal.
pub open spec fn stored_credential_outcome(
    credential: TokenOrAuth,
    record: Option<StoredCredential>,
    presented_hash: Seq<char>,
) -> Result<(), (bool, Seq<char>)> {
    match (credential, record) {
        (TokenOrAuth::Token(_, _), None) => Err((true, "Token key not found in database"@)),
        (TokenOrAuth::Auth(_, _), None) => Err((true, "Username not found in database"@)),
        (TokenOrAuth::Token(_, _), Some(r)) => if r.token_hash@ == presented_hash {
            Ok(())
        } else {
            Err((false, "Invalid token secret"@))
        },
        (TokenOrAuth::Auth(_, _), Some(r)) => if option_text_is(r.password_hash, presented_hash) {
            Ok(())
        } else {
            Err((false, "Invalid password"@))
        },
    }
}

fn option_text_equal(stored: &Option<String>, text: &str) -> (r: bool)
    ensures
        r == option_text_is(*stored, text@),
{
    match stored {
        Some(s) => str_equal(s.as_str(), text),
        None => false,
    }
}

/// Checks a presented credential against the stored token found for it
/// (see `stored_credential_outcome`): a missing token is `NotFound`, a
/// wrong secret or password is `PermissionDenied`.
pub fn check_stored_credential(
    credential: &TokenOrAuth,
    record: Option<&StoredCredential>,
    presented_hash: &str,
) -> (r: Result<(), NodegetError>)
    ensures
        match stored_credential_outcome(
            *credential,
            match record {
                Some(x) => Some(*x),
                None => None,
            },
            presented_hash@,
        ) {
            Ok(()) => r is Ok,
            Err((true, msg)) => r matches Err(NodegetError::NotFound(m)) && m@ == msg,
            Err((false, msg)) => r matches Err(NodegetError::PermissionDenied(m)) && m@ == msg,
        },
{
    match (credential, record) {
        (TokenOrAuth::Token(_, _), None) => Err(NodegetError::NotFound(String::from_str("Token key not found in database"))),
        (TokenOrAuth::Auth(_, _), None) => Err(NodegetError::NotFound(String::from_str("Username not found in database"))),
        (TokenOrAuth::Token(_, _), Some(r)) => {
            if str_equal(r.token_hash.as_str(), presented_hash) {
                Ok(())
            } else {
                Err(NodegetError::PermissionDenied(String::from_str("Invalid token secret")))
            }
        },
        (TokenOrAuth::Auth(_, _), Some(r)) => {
            if option_text_equal(&r.password_hash, presented_hash) {
                Ok(())
            } else {
                Err(NodegetError::PermissionDenied(String::from_str("Invalid password")))
            }
        },
    }
}

/// Whether a presented credential is the super token's: a `key:secret`
/// with the super token's key and secret hash, or a `username|password`
/// with its username and password hash; `presented_hash` is the hash of the
/// presented secret or password.
pub open spec fn is_super_credential(credential: TokenOrAuth, super_record: StoredCredential, presented_hash: Seq<char>) -> bool {
    match credential {
        TokenOrAuth::Token(key, _) => key@ == super_record.token_key@ && presented_hash == super_record.token_hash@,
        TokenOrAuth::Auth(username, _) => option_text_is(super_record.username, username@) && option_text_is(
            super_record.password_hash,
            presented_hash,
        ),
    }
}

/// Whether a presented credential is the super token's (see
/// `is_super_credential`).
pub fn matches_super_token(credential: &TokenOrAuth, super_record: &StoredCredential, presented_hash: &str) -> (r:
    bool)
    ensures
        r == is_super_credential(*credential, *super_record, presented_hash@),
{
    match credential {
        TokenOrAuth::Token(key, _) => str_equal(key.as_str(), super_record.token_key.as_str()) && str_equal(
            presented_hash,
            super_record.token_hash.as_str(),
        ),
        TokenOrAuth::Auth(username, _) => option_text_equal(&super_record.username, username.as_str())
            && option_text_equal(&super_record.password_hash, presented_hash),
    }
}

} // verus!
