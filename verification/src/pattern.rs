use vstd::prelude::*;
use vstd::string::StrSliceExecFns;
use vstd::string::StringExecFns;
use crate::error::NodegetError;
use crate::text::{contains_char, starts_with_str, str_equal};

verus! {

/// Whether `pattern` ends in the wildcard `*`.
pub open spec fn ends_with_wildcard(pattern: Seq<char>) -> bool {
    pattern.len() > 0 && pattern.last() == '*'
}

/// How a key is matched against a permission pattern: a pattern that ends in
/// `*` matches every key that starts with the text before the `*`; any other
/// pattern matches only the key equal to it.
pub open spec fn pattern_matches(key: Seq<char>, pattern: Seq<char>) -> bool {
    if ends_with_wildcard(pattern) {
        pattern.drop_last().is_prefix_of(key)
    } else {
        key == pattern
    }
}

/// The message of the error for a key that holds `*`.
pub open spec fn key_wildcard_message() -> Seq<char> {
    "Key cannot contain '*' character"@
}

/// The prefix of a key pattern that ends in `*`: `metadata_*` gives
/// `metadata_`, `*` gives the empty prefix, and a pattern without a trailing
/// `*` gives nothing.
pub fn wildcard_prefix(key_pattern: &str) -> (r: Option<&str>)
    ensures
        match r {
            Some(prefix) => ends_with_wildcard(key_pattern@) && prefix@ == key_pattern@.drop_last(),
            None => !ends_with_wildcard(key_pattern@),
        },
{
    if !contains_char(key_pattern, '*') {
        return None;
    }
    let n = key_pattern.unicode_len();
    if key_pattern.get_char(n - 1) == '*' {
        let prefix = key_pattern.substring_char(0, n - 1);
        assert(prefix@ =~= key_pattern@.drop_last());
        Some(prefix)
    } else {
        None
    }
}

/// Whether `key` matches the permission `pattern` (see `pattern_matches`).
pub fn key_matches_pattern(key: &str, pattern: &str) -> (r: bool)
    ensures
        r == pattern_matches(key@, pattern@),
{
    match wildcard_prefix(pattern) {
        Some(prefix) => starts_with_str(key, prefix),
        None => str_equal(key, pattern),
    }
}

/// Whether `value` matches the permission `pattern`; the same rule as
/// `key_matches_pattern`, used for token permissions.
pub fn wildcard_matches_pattern(value: &str, pattern: &str) -> (r: bool)
    ensures
        r == pattern_matches(value@, pattern@),
{
    match wildcard_prefix(pattern) {
        Some(prefix) => starts_with_str(value, prefix),
        None => str_equal(value, pattern),
    }
}

/// Rejects a key that holds the wildcard character `*`.
pub fn validate_key(key: &str) -> (r: Result<(), NodegetError>)
    ensures
        match r {
            Ok(()) => !key@.contains('*'),
            Err(e) => key@.contains('*') && (e matches NodegetError::InvalidInput(m)
                && m@ == key_wildcard_message()),
        },
{
    if contains_char(key, '*') {
        return Err(NodegetError::InvalidInput(String::from_str("Key cannot contain '*' character")));
    }
    Ok(())
}

} // verus!
