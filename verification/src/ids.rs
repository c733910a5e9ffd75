use rand::distr::Alphanumeric;
use rand::Rng;
use vstd::prelude::*;
use vstd::string::StringExecFns;
use crate::decimal::push_char;
use crate::error::NodegetError;
use crate::rpc_support::{eq_ignore_ascii_case, str_eq_ignore_ascii_case};

verus! {

/// An ASCII letter or digit.
pub open spec fn is_ascii_alphanumeric(c: char) -> bool {
    ||| ('a' <= c && c <= 'z')
    ||| ('A' <= c && c <= 'Z')
    ||| ('0' <= c && c <= '9')
}

/// A hexadecimal digit, in either case.
pub open spec fn is_hex_digit(c: char) -> bool {
    ||| ('0' <= c && c <= '9')
    ||| ('a' <= c && c <= 'f')
    ||| ('A' <= c && c <= 'F')
}

/// The value of a hexadecimal digit.
pub open spec fn hex_digit_value(c: char) -> nat {
    if '0' <= c && c <= '9' {
        (c as nat - '0' as nat) as nat
    } else if 'a' <= c && c <= 'f' {
        (c as nat - 'a' as nat + 10) as nat
    } else {
        (c as nat - 'A' as nat + 10) as nat
    }
}

/// The number that a string of hexadecimal digits spells, most significant
/// digit first.
pub open spec fn hex_value(s: Seq<char>) -> nat
    decreases s.len(),
{
    if s.len() == 0 {
        0
    } else {
        hex_value(s.drop_last()) * 16 + hex_digit_value(s.last())
    }
}

/// Every character of `s` is a hexadecimal digit.
pub open spec fn all_hex(s: Seq<char>) -> bool {
    forall|i: int| 0 <= i < s.len() ==> #[trigger] is_hex_digit(s[i])
}

/// The hyphenated UUID form `xxxxxxxx-xxxx-xxxx-xxxx-xxxxxxxxxxxx`.
pub open spec fn is_hyphenated_uuid(s: Seq<char>) -> bool {
    &&& s.len() == 36
    &&& s[8] == '-' && s[13] == '-' && s[18] == '-' && s[23] == '-'
    &&& all_hex(s.subrange(0, 8)) && all_hex(s.subrange(9, 13)) && all_hex(s.subrange(14, 18))
    &&& all_hex(s.subrange(19, 23)) && all_hex(s.subrange(24, 36))
}

/// The 32 digits of a hyphenated UUID, without its hyphens.
pub open spec fn hyphenated_digits(s: Seq<char>) -> Seq<char> {
    s.subrange(0, 8) + s.subrange(9, 13) + s.subrange(14, 18) + s.subrange(19, 23) + s.subrange(24, 36)
}

/// The prefix `urn:uuid:`, letters in either case.
pub open spec fn is_urn_uuid_prefix(p: Seq<char>) -> bool {
    &&& p.len() == 9
    &&& (p[0] == 'u' || p[0] == 'U') && (p[1] == 'r' || p[1] == 'R') && (p[2] == 'n' || p[2] == 'N')
    &&& p[3] == ':'
    &&& (p[4] == 'u' || p[4] == 'U') && (p[5] == 'u' || p[5] == 'U') && (p[6] == 'i' || p[6] == 'I')
    &&& (p[7] == 'd' || p[7] == 'D') && p[8] == ':'
}

/// The text forms that `uuid::Uuid::parse_str` accepts: 32 hexadecimal
/// digits; the hyphenated form; the hyphenated form in braces; or the
/// hyphenated form after `urn:uuid:`.
pub open spec fn is_uuid_text(s: Seq<char>) -> bool {
    ||| s.len() == 32 && all_hex(s)
    ||| is_hyphenated_uuid(s)
    ||| s.len() == 38 && s[0] == '{' && s[37] == '}' && is_hyphenated_uuid(s.subrange(1, 37))
    ||| s.len() == 45 && is_urn_uuid_prefix(s.subrange(0, 9)) && is_hyphenated_uuid(s.subrange(9, 45))
}

/// The 32 hexadecimal digits of an accepted UUID text.
pub open spec fn uuid_text_digits(s: Seq<char>) -> Seq<char> {
    if s.len() == 32 {
        s
    } else if s.len() == 36 {
        hyphenated_digits(s)
    } else if s.len() == 38 {
        hyphenated_digits(s.subrange(1, 37))
    } else {
        hyphenated_digits(s.subrange(9, 45))
    }
}

/// `u` has the version bits of a random (version 4) UUID and the RFC 4122
/// variant bits.
pub open spec fn is_random_uuid(u: u128) -> bool {
    u & 0x0000_0000_0000_F000_C000_0000_0000_0000u128 == 0x0000_0000_0000_4000_8000_0000_0000_0000u128
}

/// The text of the error that `uuid::Uuid::parse_str` gives for `text`.
pub uninterp spec fn uuid_parse_error(text: Seq<char>) -> Seq<char>;

/// Parses a UUID with `uuid::Uuid::parse_str`, as a 128-bit number, or the
/// text of its error. The contract restates, from the crate's parser, which
/// texts it accepts and that the number is the 32 hexadecimal digits read
/// most significant first; the error text is only named.
#[verifier::external_body]
fn parse_uuid_text(s: &str) -> (r: Result<u128, String>)
    ensures
        r is Ok <==> is_uuid_text(s@),
        r matches Ok(v) ==> v as nat == hex_value(uuid_text_digits(s@)),
        r matches Err(e) ==> e@ == uuid_parse_error(s@),
{
    match uuid::Uuid::parse_str(s) {
        Ok(u) => Ok(u.as_u128()),
        Err(e) => Err(e.to_string()),
    }
}

/// Draws a random UUID with `uuid::Uuid::new_v4`, as a 128-bit number. The
/// crate masks in the version-4 and variant bits; the other bits are random
/// and nothing is claimed of them.
#[verifier::external_body]
fn new_random_uuid() -> (r: u128)
    ensures
        is_random_uuid(r),
{
    uuid::Uuid::new_v4().as_u128()
}

/// Draws one character from `rand`'s `Alphanumeric` distribution with the
/// thread-local generator; the crate picks it from `A-Z`, `a-z`, `0-9`.
#[verifier::external_body]
fn random_alphanumeric_char() -> (c: char)
    ensures
        is_ascii_alphanumeric(c),
{
    char::from(rand::rng().sample(Alphanumeric))
}

/// The lower-case hexadecimal digit for `d < 16`.
pub open spec fn lower_hex_char(d: nat) -> char {
    if d < 10 {
        ((('0' as u32) + d) as u32) as char
    } else {
        ((('a' as u32) + d - 10) as u32) as char
    }
}

/// The last `k` lower-case hexadecimal digits of `n`, most significant first,
/// with leading zeros.
pub open spec fn lower_hex_digits(n: nat, k: nat) -> Seq<char>
    decreases k,
{
    if k == 0 {
        Seq::empty()
    } else {
        lower_hex_digits(n / 16, (k - 1) as nat).push(lower_hex_char(n % 16))
    }
}

/// The hyphenated lower-case text of a UUID:
/// `xxxxxxxx-xxxx-xxxx-xxxx-xxxxxxxxxxxx`, its 32 digits most significant first.
pub open spec fn hyphenated_uuid_text(u: u128) -> Seq<char> {
    let d = lower_hex_digits(u as nat, 32);
    d.subrange(0, 8) + seq!['-'] + d.subrange(8, 12) + seq!['-'] + d.subrange(12, 16) + seq!['-']
        + d.subrange(16, 20) + seq!['-'] + d.subrange(20, 32)
}

/// Formats a UUID with `Display` of `uuid::Uuid::from_u128(u)`: the crate
/// writes the big-endian bytes of `u` as lower-case hexadecimal digits with
/// hyphens after the 8th, 12th, 16th and 20th digit.
#[verifier::external_body]
pub(crate) fn format_uuid(u: u128) -> (r: String)
    ensures
        r@ == hyphenated_uuid_text(u),
{
    uuid::Uuid::from_u128(u).to_string()
}

/// `16` to the power `k`.
pub open spec fn pow16(k: nat) -> nat
    decreases k,
{
    if k == 0 {
        1
    } else {
        16 * pow16((k - 1) as nat)
    }
}

proof fn lemma_lower_hex_digits(n: nat, k: nat)
    requires
        n < pow16(k),
    ensures
        lower_hex_digits(n, k).len() == k,
        all_hex(lower_hex_digits(n, k)),
        hex_value(lower_hex_digits(n, k)) == n,
    decreases k,
{
    if k > 0 {
        lemma_lower_hex_digits(n / 16, (k - 1) as nat);
        let d = lower_hex_digits(n, k);
        let c = lower_hex_char(n % 16);
        assert(is_hex_digit(c) && hex_digit_value(c) == n % 16);
        assert(d.drop_last() =~= lower_hex_digits(n / 16, (k - 1) as nat));
        assert forall|i: int| 0 <= i < d.len() implies #[trigger] is_hex_digit(d[i]) by {
            if i < d.len() - 1 {
                assert(d[i] == lower_hex_digits(n / 16, (k - 1) as nat)[i]);
            }
        }
    }
}

/// Every UUID's hyphenated text is accepted by `uuid::Uuid::parse_str` and
/// reads back as the same UUID.
pub proof fn lemma_uuid_text_round_trip(u: u128)
    ensures
        is_uuid_text(hyphenated_uuid_text(u)),
        hex_value(uuid_text_digits(hyphenated_uuid_text(u))) == u,
{
    assert(pow16(32) == 0x1_0000_0000_0000_0000_0000_0000_0000_0000nat) by {
        reveal_with_fuel(pow16, 33);
    }
    lemma_lower_hex_digits(u as nat, 32);
    let d = lower_hex_digits(u as nat, 32);
    let s = hyphenated_uuid_text(u);
    assert(s.subrange(0, 8) =~= d.subrange(0, 8));
    assert(s.subrange(9, 13) =~= d.subrange(8, 12));
    assert(s.subrange(14, 18) =~= d.subrange(12, 16));
    assert(s.subrange(19, 23) =~= d.subrange(16, 20));
    assert(s.subrange(24, 36) =~= d.subrange(20, 32));
    assert(hyphenated_digits(s) =~= d);
    assert forall|a: int, b: int| 0 <= a <= b <= 32 implies #[trigger] all_hex(d.subrange(a, b)) by {
        assert forall|i: int| 0 <= i < b - a implies #[trigger] is_hex_digit(d.subrange(a, b)[i]) by {
            assert(d.subrange(a, b)[i] == d[a + i]);
        }
    }
    assert(all_hex(d.subrange(0, 8)));
    assert(all_hex(d.subrange(8, 12)));
    assert(all_hex(d.subrange(12, 16)));
    assert(all_hex(d.subrange(16, 20)));
    assert(all_hex(d.subrange(20, 32)));
    assert(is_hyphenated_uuid(s));
}

/// Whether `s` is a UUID text that `uuid::Uuid::parse_str` accepts.
pub fn is_valid_uuid(s: &str) -> (r: bool)
    ensures
        r == is_uuid_text(s@),
{
    parse_uuid_text(s).is_ok()
}

/// A new random (version 4) UUID; this never fails.
pub fn generate_random_uuid() -> (r: Result<u128, NodegetError>)
    ensures
        r matches Ok(u) && is_random_uuid(u),
{
    Ok(new_random_uuid())
}

/// A random string of `len` ASCII letters and digits.
pub fn generate_random_string(len: usize) -> (r: String)
    ensures
        r@.len() == len,
        forall|i: int| 0 <= i < len ==> #[trigger] is_ascii_alphanumeric(r@[i]),
{
    let mut s = String::new();
    let mut i: usize = 0;
    while i < len
        invariant
            i <= len,
            s@.len() == i,
            forall|j: int| 0 <= j < i ==> #[trigger] is_ascii_alphanumeric(s@[j]),
        decreases len - i,
    {
        let c = random_alphanumeric_char();
        push_char(&mut s, c);
        i = i + 1;
    }
    s
}

/// The credentials of a freshly created super token.
pub struct SuperTokenCredentials {
    /// The token key: 16 random letters and digits.
    pub token_key: String,
    /// The token secret: 32 random letters and digits.
    pub token_secret: String,
    /// `token_key:token_secret`, the string a client presents.
    pub full_token: String,
    /// The login name of the super token.
    pub username: String,
    /// The password: 32 random letters and digits.
    pub password: String,
}

/// Draws the credentials of a new super token: a random key and secret,
/// the full token `key:secret`, the username `root` and a random password.
pub fn generate_super_token_credentials() -> (r: SuperTokenCredentials)
    ensures
        r.token_key@.len() == 16,
        r.token_secret@.len() == 32,
        r.password@.len() == 32,
        forall|i: int| 0 <= i < 16 ==> #[trigger] is_ascii_alphanumeric(r.token_key@[i]),
        forall|i: int| 0 <= i < 32 ==> #[trigger] is_ascii_alphanumeric(r.token_secret@[i]),
        forall|i: int| 0 <= i < 32 ==> #[trigger] is_ascii_alphanumeric(r.password@[i]),
        r.full_token@ == r.token_key@ + seq![':'] + r.token_secret@,
        r.username@ == "root"@,
{
    let token_key = generate_random_string(16);
    let token_secret = generate_random_string(32);
    let full_token = token_key.clone().concat(":").concat(token_secret.as_str());
    proof {
        reveal_strlit(":");
    }
    let username = String::from_str("root");
    let password = generate_random_string(32);
    SuperTokenCredentials { token_key, token_secret, full_token, username, password }
}

/// The error for a configured UUID of `auto_gen`, which only the loading of
/// the configuration file replaces.
pub open spec fn auto_gen_refused_message() -> Seq<char> {
    "auto_gen is not supported here; use get_and_parse_config for auto-generation"@
}

/// Reads a UUID from a configuration value: `auto_gen`, in any ASCII case,
/// is refused; any other text is parsed as a UUID.
pub fn parse_configured_uuid(s: &str) -> (r: Result<u128, String>)
    ensures
        eq_ignore_ascii_case(s@, "auto_gen"@) ==> (r matches Err(m) && m@ == auto_gen_refused_message()),
        !eq_ignore_ascii_case(s@, "auto_gen"@) ==> {
            &&& (r is Ok <==> is_uuid_text(s@))
            &&& r matches Ok(v) ==> v as nat == hex_value(uuid_text_digits(s@))
            &&& r matches Err(m) ==> m@ == uuid_parse_error(s@)
        },
{
    if str_eq_ignore_ascii_case(s, "auto_gen") {
        Err(String::from_str("auto_gen is not supported here; use get_and_parse_config for auto-generation"))
    } else {
        parse_uuid_text(s)
    }
}

} // verus!
