use vstd::prelude::*;
use vstd::string::StrSliceExecFns;
use vstd::string::StringExecFns;
use crate::error::NodegetError;

verus! {

/// Where `sep` first occurs in `s`, together with the text on both sides:
/// `s == left + [sep] + right`, and `left` holds no `sep`.
pub open spec fn split_at_first(s: Seq<char>, sep: char, left: Seq<char>, right: Seq<char>) -> bool {
    &&& s == left + seq![sep] + right
    &&& !left.contains(sep)
}

/// The message returned for a credential string that is neither `key:secret`
/// nor `username|password`.
pub open spec fn invalid_token_format_message() -> Seq<char> {
    "Invalid token format: must be 'key:secret' or 'username|password'"@
}

/// Unified credential: either a token (`key:secret`) or a
/// username/password pair (`username|password`).
#[derive(Debug, Clone, PartialEq, Eq)]
pub enum TokenOrAuth {
    /// Token key and token secret.
    Token(String, String),
    /// Username and password.
    Auth(String, String),
}

/// Index of the first `c` in `s`, if any.
fn find_first_char(s: &str, c: char) -> (r: Option<usize>)
    ensures
        match r {
            Some(i) => i < s@.len() && s@[i as int] == c && !s@.subrange(0, i as int).contains(c),
            None => !s@.contains(c),
        },
{
    let n = s.unicode_len();
    let mut i: usize = 0;
    while i < n
        invariant
            n == s@.len(),
            i <= n,
            forall|j: int| 0 <= j < i ==> s@[j] != c,
        decreases n - i,
    {
        if s.get_char(i) == c {
            proof {
                assert forall|j: int| 0 <= j < i implies s@.subrange(0, i as int)[j] != c by {}
            }
            return Some(i);
        }
        i = i + 1;
    }
    None
}

/// Splits `s` around the first `sep`, as `str::split_once` does.
fn split_once_char(s: &str, sep: char) -> (r: Option<(String, String)>)
    ensures
        match r {
            Some((l, rt)) => split_at_first(s@, sep, l@, rt@),
            None => !s@.contains(sep),
        },
{
    match find_first_char(s, sep) {
        Some(i) => {
            let n = s.unicode_len();
            let left = String::from_str(s.substring_char(0, i));
            let right = String::from_str(s.substring_char(i + 1, n));
            assert(s@ =~= left@ + seq![sep] + right@);
            Some((left, right))
        },
        None => None,
    }
}

impl TokenOrAuth {
    /// Parses a full credential string: `key:secret` gives a token; otherwise
    /// `username|password` gives a username/password pair. The first `:`
    /// decides, and otherwise the first `|`.
    pub fn from_full_token(full_token: &str) -> (r: Result<Self, String>)
        ensures
            match r {
                Ok(TokenOrAuth::Token(key, secret)) => split_at_first(full_token@, ':', key@, secret@),
                Ok(TokenOrAuth::Auth(username, password)) => {
                    &&& !full_token@.contains(':')
                    &&& split_at_first(full_token@, '|', username@, password@)
                },
                Err(msg) => {
                    &&& !full_token@.contains(':')
                    &&& !full_token@.contains('|')
                    &&& msg@ == invalid_token_format_message()
                },
            },
    {
        if let Some((key, secret)) = split_once_char(full_token, ':') {
            Ok(TokenOrAuth::Token(key, secret))
        } else if let Some((username, password)) = split_once_char(full_token, '|') {
            Ok(TokenOrAuth::Auth(username, password))
        } else {
            Err(String::from_str("Invalid token format: must be 'key:secret' or 'username|password'"))
        }
    }

    /// The token key, for a token credential.
    pub fn token_key(&self) -> (r: Option<&str>)
        ensures
            match self {
                TokenOrAuth::Token(key, _) => r matches Some(k) && k@ == key@,
                TokenOrAuth::Auth(_, _) => r is None,
            },
    {
        match self {
            TokenOrAuth::Token(key, _) => Some(key.as_str()),
            TokenOrAuth::Auth(_, _) => None,
        }
    }

    /// The token secret, for a token credential.
    pub fn token_secret(&self) -> (r: Option<&str>)
        ensures
            match self {
                TokenOrAuth::Token(_, secret) => r matches Some(s) && s@ == secret@,
                TokenOrAuth::Auth(_, _) => r is None,
            },
    {
        match self {
            TokenOrAuth::Token(_, secret) => Some(secret.as_str()),
            TokenOrAuth::Auth(_, _) => None,
        }
    }

    /// The username, for a username/password credential.
    pub fn username(&self) -> (r: Option<&str>)
        ensures
            match self {
                TokenOrAuth::Token(_, _) => r is None,
                TokenOrAuth::Auth(username, _) => r matches Some(u) && u@ == username@,
            },
    {
        match self {
            TokenOrAuth::Token(_, _) => None,
            TokenOrAuth::Auth(username, _) => Some(username.as_str()),
        }
    }

    /// The password, for a username/password credential.
    pub fn password(&self) -> (r: Option<&str>)
        ensures
            match self {
                TokenOrAuth::Token(_, _) => r is None,
                TokenOrAuth::Auth(_, password) => r matches Some(p) && p@ == password@,
            },
    {
        match self {
            TokenOrAuth::Token(_, _) => None,
            TokenOrAuth::Auth(_, password) => Some(password.as_str()),
        }
    }

    /// Whether this is a token credential.
    pub fn is_token(&self) -> (r: bool)
        ensures
            r == (self is Token),
    {
        matches!(self, TokenOrAuth::Token(_, _))
    }

    /// Whether this is a username/password credential.
    pub fn is_auth(&self) -> (r: bool)
        ensures
            r == (self is Auth),
    {
        matches!(self, TokenOrAuth::Auth(_, _))
    }
}

/// A credential `key:secret` whose key holds no `:` splits back into that
/// key and secret, and into nothing else; so a token string built from a key
/// and a secret parses back to them.
pub proof fn lemma_token_parse_round_trip(key: Seq<char>, secret: Seq<char>, left: Seq<char>, right: Seq<char>)
    requires
        !key.contains(':'),
    ensures
        split_at_first(key + seq![':'] + secret, ':', left, right) <==> (left == key && right == secret),
{
    let s = key + seq![':'] + secret;
    if split_at_first(s, ':', left, right) {
        if left.len() < key.len() {
            assert(s[left.len() as int] == ':');
            assert(key[left.len() as int] == ':');
        } else if left.len() > key.len() {
            assert(s[key.len() as int] == ':');
            assert(left[key.len() as int] == ':');
        }
        assert(left =~= s.subrange(0, left.len() as int));
        assert(key =~= s.subrange(0, key.len() as int));
        assert(right =~= s.subrange(left.len() as int + 1, s.len() as int));
        assert(secret =~= s.subrange(key.len() as int + 1, s.len() as int));
    }
}

/// The message of the error for a credential string that cannot be parsed.
pub open spec fn credential_parse_message() -> Seq<char> {
    "Failed to parse token: "@ + invalid_token_format_message()
}

/// Parses the credential a request carries, as `TokenOrAuth::from_full_token`
/// does, turning a malformed string into a parse error.
pub fn parse_credential(token: &str) -> (r: Result<TokenOrAuth, NodegetError>)
    ensures
        match r {
            Ok(TokenOrAuth::Token(key, secret)) => split_at_first(token@, ':', key@, secret@),
            Ok(TokenOrAuth::Auth(username, password)) => {
                &&& !token@.contains(':')
                &&& split_at_first(token@, '|', username@, password@)
            },
            Err(e) => {
                &&& !token@.contains(':')
                &&& !token@.contains('|')
                &&& e matches NodegetError::ParseError(m) && m@ == credential_parse_message()
            },
        },
{
    match TokenOrAuth::from_full_token(token) {
        Ok(t) => Ok(t),
        Err(msg) => Err(NodegetError::ParseError(String::from_str("Failed to parse token: ").concat(msg.as_str()))),
    }
}

} // verus!
