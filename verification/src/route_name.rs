use vstd::prelude::*;
use vstd::string::StrSliceExecFns;
use vstd::string::StringExecFns;
use crate::error::NodegetError;
use crate::text::{is_whitespace, trim, trim_str};

verus! {

/// A character allowed in a route name: an ASCII letter or digit, `.`, `_`
/// or `-`.
pub open spec fn is_route_char(c: char) -> bool {
    ||| ('a' <= c && c <= 'z')
    ||| ('A' <= c && c <= 'Z')
    ||| ('0' <= c && c <= '9')
    ||| c == '-'
    ||| c == '_'
    ||| c == '.'
}

/// The message for a route name that is empty after trimming.
pub open spec fn route_name_empty_message() -> Seq<char> {
    "route_name cannot be empty string"@
}

/// The message for a route name with a character outside `[a-zA-Z0-9._-]`.
pub open spec fn route_name_charset_message() -> Seq<char> {
    "route_name can only contain [a-zA-Z0-9._-]"@
}

/// What a given route name becomes: the name trimmed of surrounding
/// whitespace when that is non-empty and made of route characters only,
/// otherwise the message of the error.
pub open spec fn route_name_outcome(raw: Seq<char>) -> Result<Seq<char>, Seq<char>> {
    let t = trim(raw);
    if t.len() == 0 {
        Err(route_name_empty_message())
    } else if !(forall|i: int| 0 <= i < t.len() ==> #[trigger] is_route_char(t[i])) {
        Err(route_name_charset_message())
    } else {
        Ok(t)
    }
}

fn is_route_char_exec(c: char) -> (r: bool)
    ensures
        r == is_route_char(c),
{
    ('a' <= c && c <= 'z') || ('A' <= c && c <= 'Z') || ('0' <= c && c <= '9') || c == '-' || c == '_'
        || c == '.'
}

/// Normalises an optional route name: no name stays absent; a given name is
/// trimmed and must then be non-empty and consist of `[a-zA-Z0-9._-]`.
pub fn normalize_route_name(route_name: Option<String>) -> (r: Result<Option<String>, NodegetError>)
    ensures
        match route_name {
            None => r matches Ok(None),
            Some(raw) => match route_name_outcome(raw@) {
                Ok(t) => r matches Ok(Some(name)) && name@ == t,
                Err(msg) => r matches Err(NodegetError::InvalidInput(m)) && m@ == msg,
            },
        },
{
    match route_name {
        None => Ok(None),
        Some(raw) => match normalize_given_route_name(&raw) {
            Ok(name) => Ok(Some(name)),
            Err(e) => Err(e),
        },
    }
}

fn normalize_given_route_name(raw: &String) -> (r: Result<String, NodegetError>)
    ensures
        match route_name_outcome(raw@) {
            Ok(t) => r matches Ok(name) && name@ == t,
            Err(msg) => r matches Err(NodegetError::InvalidInput(m)) && m@ == msg,
        },
{
    let normalized = trim_str(raw.as_str());
    let n = normalized.unicode_len();
    if n == 0 {
        return Err(NodegetError::InvalidInput(String::from_str("route_name cannot be empty string")));
    }
    let mut i: usize = 0;
    while i < n
        invariant
            n == normalized@.len(),
            normalized@ == trim(raw@),
            i <= n,
            forall|j: int| 0 <= j < i ==> #[trigger] is_route_char(normalized@[j]),
        decreases n - i,
    {
        if !is_route_char_exec(normalized.get_char(i)) {
            assert(!is_route_char(normalized@[i as int]));
            return Err(NodegetError::InvalidInput(String::from_str("route_name can only contain [a-zA-Z0-9._-]")));
        }
        i = i + 1;
    }
    Ok(String::from_str(normalized))
}

proof fn lemma_trim_without_whitespace(s: Seq<char>)
    requires
        forall|i: int| 0 <= i < s.len() ==> !is_whitespace(#[trigger] s[i]),
    ensures
        trim(s) == s,
{
    if s.len() > 0 {
        assert(!is_whitespace(s[0]));
        assert(!is_whitespace(s.last()));
    }
}

/// Normalising is idempotent: a name that normalisation accepts is
/// accepted again, unchanged.
pub proof fn lemma_route_name_normalization_idempotent(raw: Seq<char>)
    requires
        route_name_outcome(raw) is Ok,
    ensures
        route_name_outcome(route_name_outcome(raw)->Ok_0) == route_name_outcome(raw),
{
    let t = route_name_outcome(raw)->Ok_0;
    assert forall|i: int| 0 <= i < t.len() implies !is_whitespace(#[trigger] t[i]) by {
        assert(is_route_char(t[i]));
    }
    lemma_trim_without_whitespace(t);
}

/// A route name is accepted exactly when, once trimmed, it is not empty and
/// every character is an ASCII letter of either case, an ASCII digit, `-`,
/// `_` or `.`; the accepted name is the trimmed text.
pub proof fn lemma_route_name_accepts_exactly(raw: Seq<char>)
    ensures
        route_name_outcome(raw) is Ok <==> (trim(raw).len() > 0 && forall|i: int|
            0 <= i < trim(raw).len() ==> {
                let c = #[trigger] trim(raw)[i];
                ||| ('a' <= c && c <= 'z')
                ||| ('A' <= c && c <= 'Z')
                ||| ('0' <= c && c <= '9')
                ||| c == '-'
                ||| c == '_'
                ||| c == '.'
            }),
        route_name_outcome(raw) matches Ok(name) ==> name == trim(raw),
{
    let t = trim(raw);
    assert forall|i: int| 0 <= i < t.len() implies is_route_char(#[trigger] t[i]) == {
        let c = t[i];
        ||| ('a' <= c && c <= 'z')
        ||| ('A' <= c && c <= 'Z')
        ||| ('0' <= c && c <= '9')
        ||| c == '-'
        ||| c == '_'
        ||| c == '.'
    } by {}
}

} // verus!
