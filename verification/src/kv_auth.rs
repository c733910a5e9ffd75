use vstd::prelude::*;
use vstd::string::StringExecFns;
use crate::error::NodegetError;
use crate::pattern::{key_matches_pattern, pattern_matches, validate_key, ends_with_wildcard, key_wildcard_message};
use crate::permission::{lemma_token_allows_single, check_token_limit, token_in_window_exec, limit_allows, permission_grants, scope_covers, token_covers, token_in_window, Kv, Limit, Permission, Principal, Scope, Token};
use crate::text::str_equal;

verus! {

/// The kind of key-value access a request asks for.
#[derive(Debug, Clone, Copy, PartialEq, Eq)]
pub enum KvAccess {
    Read,
    Write,
    Delete,
}

/// Whether a rule scope applies to the key-value namespace `ns`.
pub open spec fn kv_scope_matches(scope: Scope, ns: Seq<char>) -> bool {
    match scope {
        Scope::Global => true,
        Scope::KvNamespace(n) => n@ == ns,
        Scope::AgentUuid(_) => false,
    }
}

/// Whether a granted permission is a key pattern of kind `access` that
/// matches `key`.
pub open spec fn kv_rule_grants(access: KvAccess, granted: Permission, key: Seq<char>) -> bool {
    match (access, granted) {
        (KvAccess::Read, Permission::Kv(Kv::Read(p))) => pattern_matches(key, p@),
        (KvAccess::Write, Permission::Kv(Kv::Write(p))) => pattern_matches(key, p@),
        (KvAccess::Delete, Permission::Kv(Kv::Delete(p))) => pattern_matches(key, p@),
        _ => false,
    }
}

/// Whether one rule applies to namespace `ns` and grants `access` on `key`.
pub open spec fn limit_grants_kv(limit: Limit, access: KvAccess, ns: Seq<char>, key: Seq<char>) -> bool {
    &&& exists|i: int| 0 <= i < limit.scopes@.len() && #[trigger] kv_scope_matches(limit.scopes@[i], ns)
    &&& exists|j: int|
        0 <= j < limit.permissions@.len() && #[trigger] kv_rule_grants(access, limit.permissions@[j], key)
}

/// Whether some rule of `token` grants `access` on `key` in namespace `ns`,
/// whatever the token's validity window.
pub open spec fn token_grants_kv(token: Token, access: KvAccess, ns: Seq<char>, key: Seq<char>) -> bool {
    exists|k: int|
        0 <= k < token.token_limit@.len() && #[trigger] limit_grants_kv(token.token_limit@[k], access, ns, key)
}

/// The key-value access decision. The super token may do anything. A stored
/// token passes only inside its validity window, and then when it grants
/// `access` on the whole namespace (the key `*`) or when one of its rules
/// grants `access` on `key` by a matching pattern.
pub open spec fn kv_access_allowed(
    principal: Principal,
    now: i64,
    access: KvAccess,
    ns: Seq<char>,
    key: Seq<char>,
) -> bool {
    match principal {
        Principal::SuperToken => true,
        Principal::Holder(token) => token_in_window(token, now) && (token_grants_kv(token, access, ns, "*"@)
            || token_grants_kv(token, access, ns, key)),
    }
}

/// Whether a stored token, inside its window, may list the keys of `ns`.
pub open spec fn kv_list_allowed(principal: Principal, now: i64, ns: Seq<char>) -> bool {
    match principal {
        Principal::SuperToken => true,
        Principal::Holder(token) => {
            &&& token_in_window(token, now)
            &&& exists|k: int|
                0 <= k < token.token_limit@.len() && #[trigger] limit_grants_kv_list(
                    token.token_limit@[k],
                    ns,
                )
        },
    }
}

/// Whether one rule applies to namespace `ns` and holds `Kv::ListAllKeys`.
pub open spec fn limit_grants_kv_list(limit: Limit, ns: Seq<char>) -> bool {
    &&& exists|i: int| 0 <= i < limit.scopes@.len() && #[trigger] kv_scope_matches(limit.scopes@[i], ns)
    &&& exists|j: int|
        0 <= j < limit.permissions@.len() && #[trigger] limit.permissions@[j] == Permission::Kv(
            Kv::ListAllKeys,
        )
}

/// The permission-denied message for `access` on `key` in `ns`.
pub open spec fn kv_denied_message(access: KvAccess, ns: Seq<char>, key: Seq<char>) -> Seq<char> {
    let verb = match access {
        KvAccess::Read => "read"@,
        KvAccess::Write => "write"@,
        KvAccess::Delete => "delete"@,
    };
    "No "@ + verb + " permission for key '"@ + key + "' in namespace '"@ + ns + "'"@
}

/// `p` is the key-value permission of kind `access` on the key `key`.
pub open spec fn is_kv_permission(p: Permission, access: KvAccess, key: Seq<char>) -> bool {
    match (access, p) {
        (KvAccess::Read, Permission::Kv(Kv::Read(k))) => k@ == key,
        (KvAccess::Write, Permission::Kv(Kv::Write(k))) => k@ == key,
        (KvAccess::Delete, Permission::Kv(Kv::Delete(k))) => k@ == key,
        _ => false,
    }
}

/// Every pattern matches itself.
pub proof fn lemma_pattern_matches_itself(s: Seq<char>)
    ensures
        pattern_matches(s, s),
{
    if ends_with_wildcard(s) {
        assert(s.drop_last() =~= s.subrange(0, s.drop_last().len() as int));
    }
}

proof fn lemma_permission_grants_kv(g: Permission, access: KvAccess, p: Permission, key: Seq<char>)
    requires
        is_kv_permission(p, access, key),
    ensures
        permission_grants(g, p) == kv_rule_grants(access, g, key),
{
    if let Permission::Kv(Kv::Read(q)) = g {
        lemma_pattern_matches_itself(q@);
    }
    if let Permission::Kv(Kv::Write(q)) = g {
        lemma_pattern_matches_itself(q@);
    }
    if let Permission::Kv(Kv::Delete(q)) = g {
        lemma_pattern_matches_itself(q@);
    }
}

proof fn lemma_token_covers_kv(token: Token, scope: Scope, access: KvAccess, p: Permission, ns: Seq<char>, key: Seq<char>)
    requires
        scope matches Scope::KvNamespace(n) && n@ == ns,
        is_kv_permission(p, access, key),
    ensures
        token_covers(token, scope, p) == token_grants_kv(token, access, ns, key),
{
    assert forall|k: int| 0 <= k < token.token_limit@.len() implies
        limit_allows(#[trigger] token.token_limit@[k], scope, p) == limit_grants_kv(token.token_limit@[k], access, ns, key) by {
        let l = token.token_limit@[k];
        assert forall|i: int| 0 <= i < l.scopes@.len() implies
            scope_covers(#[trigger] l.scopes@[i], scope) == kv_scope_matches(l.scopes@[i], ns) by {}
        assert forall|j: int| 0 <= j < l.permissions@.len() implies
            permission_grants(#[trigger] l.permissions@[j], p) == kv_rule_grants(access, l.permissions@[j], key) by {
            lemma_permission_grants_kv(l.permissions@[j], access, p, key);
        }
    }
    if token_covers(token, scope, p) {
        let k = choose|k: int| 0 <= k < token.token_limit@.len() && #[trigger] limit_allows(token.token_limit@[k], scope, p);
        assert(limit_grants_kv(token.token_limit@[k], access, ns, key));
    }
    if token_grants_kv(token, access, ns, key) {
        let k = choose|k: int| 0 <= k < token.token_limit@.len() && #[trigger] limit_grants_kv(token.token_limit@[k], access, ns, key);
        assert(limit_allows(token.token_limit@[k], scope, p));
    }
}

fn kv_permission(access: KvAccess, key: &str) -> (p: Permission)
    ensures
        is_kv_permission(p, access, key@),
{
    let k = String::from_str(key);
    match access {
        KvAccess::Read => Permission::Kv(Kv::Read(k)),
        KvAccess::Write => Permission::Kv(Kv::Write(k)),
        KvAccess::Delete => Permission::Kv(Kv::Delete(k)),
    }
}

fn kv_scope_matches_exec(scope: &Scope, namespace: &str) -> (r: bool)
    ensures
        r == kv_scope_matches(*scope, namespace@),
{
    match scope {
        Scope::Global => true,
        Scope::KvNamespace(ns) => str_equal(ns.as_str(), namespace),
        Scope::AgentUuid(_) => false,
    }
}

fn kv_rule_grants_exec(access: KvAccess, granted: &Permission, key: &str) -> (r: bool)
    ensures
        r == kv_rule_grants(access, *granted, key@),
{
    match (access, granted) {
        (KvAccess::Read, Permission::Kv(Kv::Read(p))) => key_matches_pattern(key, p.as_str()),
        (KvAccess::Write, Permission::Kv(Kv::Write(p))) => key_matches_pattern(key, p.as_str()),
        (KvAccess::Delete, Permission::Kv(Kv::Delete(p))) => key_matches_pattern(key, p.as_str()),
        _ => false,
    }
}

fn limit_scopes_match_namespace(limit: &Limit, namespace: &str) -> (r: bool)
    ensures
        r == exists|i: int| 0 <= i < limit.scopes@.len() && #[trigger] kv_scope_matches(limit.scopes@[i], namespace@),
{
    let mut i: usize = 0;
    while i < limit.scopes.len()
        invariant
            i <= limit.scopes@.len(),
            forall|x: int| 0 <= x < i ==> !kv_scope_matches(#[trigger] limit.scopes@[x], namespace@),
        decreases limit.scopes@.len() - i,
    {
        if kv_scope_matches_exec(&limit.scopes[i], namespace) {
            return true;
        }
        i = i + 1;
    }
    false
}

fn token_grants_kv_exec(token: &Token, access: KvAccess, namespace: &str, key: &str) -> (r: bool)
    ensures
        r == token_grants_kv(*token, access, namespace@, key@),
{
    let mut k: usize = 0;
    while k < token.token_limit.len()
        invariant
            k <= token.token_limit@.len(),
            forall|x: int| 0 <= x < k ==> !limit_grants_kv(#[trigger] token.token_limit@[x], access, namespace@, key@),
        decreases token.token_limit@.len() - k,
    {
        let limit = &token.token_limit[k];
        if limit_scopes_match_namespace(limit, namespace) {
            let mut j: usize = 0;
            while j < limit.permissions.len()
                invariant
                    k < token.token_limit@.len(),
                    *limit == token.token_limit@[k as int],
                    j <= limit.permissions@.len(),
                    exists|i: int| 0 <= i < limit.scopes@.len() && #[trigger] kv_scope_matches(limit.scopes@[i], namespace@),
                    forall|y: int| 0 <= y < j ==> !kv_rule_grants(access, #[trigger] limit.permissions@[y], key@),
                decreases limit.permissions@.len() - j,
            {
                if kv_rule_grants_exec(access, &limit.permissions[j], key) {
                    assert(limit_grants_kv(token.token_limit@[k as int], access, namespace@, key@));
                    return true;
                }
                j = j + 1;
            }
        }
        k = k + 1;
    }
    false
}

fn kv_denied(access: KvAccess, namespace: &str, key: &str) -> (e: NodegetError)
    ensures
        e matches NodegetError::PermissionDenied(m) && m@ == kv_denied_message(access, namespace@, key@),
{
    let verb = match access {
        KvAccess::Read => "read",
        KvAccess::Write => "write",
        KvAccess::Delete => "delete",
    };
    let m = String::from_str("No ").concat(verb).concat(" permission for key '").concat(key).concat(
        "' in namespace '",
    ).concat(namespace).concat("'");
    NodegetError::PermissionDenied(m)
}

fn check_kv_key_permission(
    access: KvAccess,
    principal: &Principal,
    now: i64,
    namespace: &str,
    key: &str,
) -> (r: Result<(), NodegetError>)
    ensures
        match r {
            Ok(()) => !key@.contains('*') && kv_access_allowed(*principal, now, access, namespace@, key@),
            Err(e) => if key@.contains('*') {
                e matches NodegetError::InvalidInput(m) && m@ == key_wildcard_message()
            } else {
                &&& !kv_access_allowed(*principal, now, access, namespace@, key@)
                &&& e matches NodegetError::PermissionDenied(m) && m@ == kv_denied_message(access, namespace@, key@)
            },
        },
{
    if let Err(e) = validate_key(key) {
        return Err(e);
    }
    let scopes = vec![Scope::KvNamespace(String::from_str(namespace))];
    let whole_namespace = vec![kv_permission(access, "*")];
    proof {
        reveal_strlit("*");
        if let Principal::Holder(t) = principal {
            lemma_token_allows_single(*t, now, scopes@[0], whole_namespace@[0]);
            lemma_token_covers_kv(*t, scopes@[0], access, whole_namespace@[0], namespace@, "*"@);
            assert(scopes@ =~= seq![scopes@[0]]);
            assert(whole_namespace@ =~= seq![whole_namespace@[0]]);
        }
    }
    if check_token_limit(principal, now, &scopes, &whole_namespace) {
        return Ok(());
    }
    let specific = vec![kv_permission(access, key)];
    proof {
        if let Principal::Holder(t) = principal {
            lemma_token_allows_single(*t, now, scopes@[0], specific@[0]);
            lemma_token_covers_kv(*t, scopes@[0], access, specific@[0], namespace@, key@);
            assert(specific@ =~= seq![specific@[0]]);
        }
    }
    if check_token_limit(principal, now, &scopes, &specific) {
        return Ok(());
    }
    match principal {
        Principal::SuperToken => Ok(()),
        Principal::Holder(token) => {
            if token_in_window_exec(token, now) && token_grants_kv_exec(token, access, namespace, key) {
                Ok(())
            } else {
                Err(kv_denied(access, namespace, key))
            }
        },
    }
}

/// Whether `principal` may read `key` in `namespace` (see
/// `kv_access_allowed`); a key that holds `*` is rejected first.
pub fn check_kv_read_permission(principal: &Principal, now: i64, namespace: &str, key: &str) -> (r: Result<(), NodegetError>)
    ensures
        match r {
            Ok(()) => !key@.contains('*') && kv_access_allowed(*principal, now, KvAccess::Read, namespace@, key@),
            Err(e) => if key@.contains('*') {
                e matches NodegetError::InvalidInput(m) && m@ == key_wildcard_message()
            } else {
                &&& !kv_access_allowed(*principal, now, KvAccess::Read, namespace@, key@)
                &&& e matches NodegetError::PermissionDenied(m) && m@ == kv_denied_message(KvAccess::Read, namespace@, key@)
            },
        },
{
    check_kv_key_permission(KvAccess::Read, principal, now, namespace, key)
}

/// Whether `principal` may write `key` in `namespace` (see
/// `kv_access_allowed`); a key that holds `*` is rejected first.
pub fn check_kv_write_permission(principal: &Principal, now: i64, namespace: &str, key: &str) -> (r: Result<(), NodegetError>)
    ensures
        match r {
            Ok(()) => !key@.contains('*') && kv_access_allowed(*principal, now, KvAccess::Write, namespace@, key@),
            Err(e) => if key@.contains('*') {
                e matches NodegetError::InvalidInput(m) && m@ == key_wildcard_message()
            } else {
                &&& !kv_access_allowed(*principal, now, KvAccess::Write, namespace@, key@)
                &&& e matches NodegetError::PermissionDenied(m) && m@ == kv_denied_message(KvAccess::Write, namespace@, key@)
            },
        },
{
    check_kv_key_permission(KvAccess::Write, principal, now, namespace, key)
}

/// Whether `principal` may delete `key` in `namespace` (see
/// `kv_access_allowed`); a key that holds `*` is rejected first.
pub fn check_kv_delete_permission(principal: &Principal, now: i64, namespace: &str, key: &str) -> (r: Result<(), NodegetError>)
    ensures
        match r {
            Ok(()) => !key@.contains('*') && kv_access_allowed(*principal, now, KvAccess::Delete, namespace@, key@),
            Err(e) => if key@.contains('*') {
                e matches NodegetError::InvalidInput(m) && m@ == key_wildcard_message()
            } else {
                &&& !kv_access_allowed(*principal, now, KvAccess::Delete, namespace@, key@)
                &&& e matches NodegetError::PermissionDenied(m) && m@ == kv_denied_message(KvAccess::Delete, namespace@, key@)
            },
        },
{
    check_kv_key_permission(KvAccess::Delete, principal, now, namespace, key)
}

proof fn lemma_token_covers_kv_list(token: Token, scope: Scope, p: Permission, ns: Seq<char>)
    requires
        scope matches Scope::KvNamespace(n) && n@ == ns,
        p == Permission::Kv(Kv::ListAllKeys),
    ensures
        token_covers(token, scope, p) == exists|k: int|
            0 <= k < token.token_limit@.len() && #[trigger] limit_grants_kv_list(token.token_limit@[k], ns),
{
    assert forall|k: int| 0 <= k < token.token_limit@.len() implies
        limit_allows(#[trigger] token.token_limit@[k], scope, p) == limit_grants_kv_list(token.token_limit@[k], ns) by {
        let l = token.token_limit@[k];
        assert forall|i: int| 0 <= i < l.scopes@.len() implies
            scope_covers(#[trigger] l.scopes@[i], scope) == kv_scope_matches(l.scopes@[i], ns) by {}
        assert forall|j: int| 0 <= j < l.permissions@.len() implies
            permission_grants(#[trigger] l.permissions@[j], p) == (l.permissions@[j] == p) by {}
    }
    if token_covers(token, scope, p) {
        let k = choose|k: int| 0 <= k < token.token_limit@.len() && #[trigger] limit_allows(token.token_limit@[k], scope, p);
        assert(limit_grants_kv_list(token.token_limit@[k], ns));
    }
    if exists|k: int| 0 <= k < token.token_limit@.len() && #[trigger] limit_grants_kv_list(token.token_limit@[k], ns) {
        let k = choose|k: int| 0 <= k < token.token_limit@.len() && #[trigger] limit_grants_kv_list(token.token_limit@[k], ns);
        assert(limit_allows(token.token_limit@[k], scope, p));
    }
}

/// The message for a refused key listing in `ns`.
pub open spec fn kv_list_denied_message(ns: Seq<char>) -> Seq<char> {
    "No permission to list keys in namespace '"@ + ns + "'"@
}

/// The message for a refused namespace creation.
pub open spec fn kv_create_denied_message() -> Seq<char> {
    "Only SuperToken can create KV namespace"@
}

/// Whether `principal` may list every key of `namespace`: it needs
/// `Kv::ListAllKeys` on that namespace, inside the token's window.
pub fn check_kv_list_keys_permission(principal: &Principal, now: i64, namespace: &str) -> (r: Result<(), NodegetError>)
    ensures
        match r {
            Ok(()) => kv_list_allowed(*principal, now, namespace@),
            Err(e) => {
                &&& !kv_list_allowed(*principal, now, namespace@)
                &&& e matches NodegetError::PermissionDenied(m) && m@ == kv_list_denied_message(namespace@)
            },
        },
{
    let scopes = vec![Scope::KvNamespace(String::from_str(namespace))];
    let permissions = vec![Permission::Kv(Kv::ListAllKeys)];
    proof {
        if let Principal::Holder(t) = principal {
            lemma_token_allows_single(*t, now, scopes@[0], permissions@[0]);
            lemma_token_covers_kv_list(*t, scopes@[0], permissions@[0], namespace@);
            assert(scopes@ =~= seq![scopes@[0]]);
            assert(permissions@ =~= seq![permissions@[0]]);
        }
    }
    if check_token_limit(principal, now, &scopes, &permissions) {
        return Ok(());
    }
    let m = String::from_str("No permission to list keys in namespace '").concat(namespace).concat("'");
    Err(NodegetError::PermissionDenied(m))
}

/// Whether `principal` may create a key-value namespace: only the super
/// token may.
pub fn check_kv_create_permission(principal: &Principal) -> (r: Result<(), NodegetError>)
    ensures
        match r {
            Ok(()) => *principal is SuperToken,
            Err(e) => {
                &&& *principal is Holder
                &&& e matches NodegetError::PermissionDenied(m) && m@ == kv_create_denied_message()
            },
        },
{
    match principal {
        Principal::SuperToken => Ok(()),
        Principal::Holder(_) => Err(NodegetError::PermissionDenied(String::from_str("Only SuperToken can create KV namespace"))),
    }
}

/// A stored token with a rule that grants `access` on the key pattern `*`
/// for namespace `ns` (or globally) may use `access` on every key of `ns`
/// while inside its validity window.
pub proof fn lemma_star_rule_grants_every_key(
    token: Token,
    now: i64,
    access: KvAccess,
    ns: Seq<char>,
    key: Seq<char>,
    k: int,
    i: int,
    j: int,
)
    requires
        0 <= k < token.token_limit@.len(),
        0 <= i < token.token_limit@[k].scopes@.len(),
        0 <= j < token.token_limit@[k].permissions@.len(),
        kv_scope_matches(token.token_limit@[k].scopes@[i], ns),
        is_kv_permission(token.token_limit@[k].permissions@[j], access, "*"@),
        token_in_window(token, now),
    ensures
        kv_access_allowed(Principal::Holder(token), now, access, ns, key),
{
    crate::permission::lemma_star_pattern_matches_all(key);
    let l = token.token_limit@[k];
    assert(kv_rule_grants(access, l.permissions@[j], key));
    assert(limit_grants_kv(l, access, ns, key));
}

/// The super token may use any access on any key.
pub proof fn lemma_super_token_kv_access(now: i64, access: KvAccess, ns: Seq<char>, key: Seq<char>)
    ensures
        kv_access_allowed(Principal::SuperToken, now, access, ns, key),
        kv_list_allowed(Principal::SuperToken, now, ns),
{
}

/// A stored token outside its validity window has no key-value access.
pub proof fn lemma_expired_token_kv_access(token: Token, now: i64, access: KvAccess, ns: Seq<char>, key: Seq<char>)
    requires
        !token_in_window(token, now),
    ensures
        !kv_access_allowed(Principal::Holder(token), now, access, ns, key),
        !kv_list_allowed(Principal::Holder(token), now, ns),
{
}

/// A stored token inside its validity window whose rule covers namespace
/// `ns` (by the global scope or that namespace) and holds the key-value
/// permission of kind `access` with pattern `p` may use that access on
/// every key that `p` matches: the key starts with the text before a
/// trailing `*`, or equals `p`.
pub proof fn lemma_kv_pattern_rule_grants_access(
    token: Token,
    now: i64,
    access: KvAccess,
    ns: Seq<char>,
    key: Seq<char>,
    p: String,
    k: int,
    i: int,
    j: int,
)
    requires
        token.timestamp_from matches Some(from) ==> from <= now,
        token.timestamp_to matches Some(to) ==> now <= to,
        0 <= k < token.token_limit@.len(),
        0 <= i < token.token_limit@[k].scopes@.len(),
        0 <= j < token.token_limit@[k].permissions@.len(),
        token.token_limit@[k].scopes@[i] == Scope::Global || (token.token_limit@[k].scopes@[i] matches Scope::KvNamespace(
            n,
        ) && n@ == ns),
        token.token_limit@[k].permissions@[j] == match access {
            KvAccess::Read => Permission::Kv(Kv::Read(p)),
            KvAccess::Write => Permission::Kv(Kv::Write(p)),
            KvAccess::Delete => Permission::Kv(Kv::Delete(p)),
        },
        (p@.len() > 0 && p@[p@.len() - 1] == '*' && key.len() >= p@.len() - 1 && key.subrange(0, p@.len() - 1)
            == p@.subrange(0, p@.len() - 1)) || key == p@,
    ensures
        kv_access_allowed(Principal::Holder(token), now, access, ns, key),
{
    let l = token.token_limit@[k];
    assert(kv_scope_matches(l.scopes@[i], ns));
    if p@.len() > 0 && p@[p@.len() - 1] == '*' {
        assert(p@.drop_last() =~= p@.subrange(0, p@.len() - 1));
        if key == p@ {
            assert(key.subrange(0, p@.len() - 1) =~= p@.subrange(0, p@.len() - 1));
        }
        assert(key.subrange(0, p@.drop_last().len() as int) == key.subrange(0, p@.len() - 1));
    }
    assert(pattern_matches(key, p@));
    assert(kv_rule_grants(access, l.permissions@[j], key));
    assert(limit_grants_kv(l, access, ns, key));
}

} // verus!
