use vstd::prelude::*;
use crate::pattern::{ends_with_wildcard, pattern_matches, wildcard_matches_pattern};
use crate::text::str_equal;

verus! {

/// What a permission rule applies to.
#[derive(Debug, Clone, PartialEq, Eq)]
pub enum Scope {
    /// Every agent and every namespace.
    Global,
    /// One agent, by its UUID (as a 128-bit number).
    AgentUuid(u128),
    /// One key-value namespace, by name.
    KvNamespace(String),
}

/// Key-value permissions; the `String` is a key or a key pattern.
#[derive(Debug, Clone, PartialEq, Eq)]
pub enum Kv {
    Read(String),
    Write(String),
    Delete(String),
    ListAllKeys,
}

/// Permissions on crontab results; the `String` is a crontab name or pattern.
#[derive(Debug, Clone, PartialEq, Eq)]
pub enum CrontabResult {
    Read(String),
    Delete(String),
}

/// Server-level permissions.
#[derive(Debug, Clone, Copy, PartialEq, Eq)]
pub enum NodeGet {
    ListAllAgentUuid,
    ExecSql,
}

/// Crontab permissions.
#[derive(Debug, Clone, Copy, PartialEq, Eq)]
pub enum Crontab {
    Write,
}

/// Task permissions; the `String` is a task name.
#[derive(Debug, Clone, PartialEq, Eq)]
pub enum Task {
    Create(String),
    Write(String),
}

/// Static-monitoring permissions.
#[derive(Debug, Clone, Copy, PartialEq, Eq)]
pub enum StaticMonitoring {
    Delete,
}

/// Dynamic-monitoring permissions.
#[derive(Debug, Clone, Copy, PartialEq, Eq)]
pub enum DynamicMonitoring {
    Delete,
}

/// Agent-metadata permissions.
#[derive(Debug, Clone, Copy, PartialEq, Eq)]
pub enum Metadata {
    Read,
}

/// One permission that a token may hold or a request may need.
#[derive(Debug, Clone, PartialEq, Eq)]
pub enum Permission {
    Kv(Kv),
    CrontabResult(CrontabResult),
    NodeGet(NodeGet),
    Crontab(Crontab),
    Task(Task),
    StaticMonitoring(StaticMonitoring),
    DynamicMonitoring(DynamicMonitoring),
    Metadata(Metadata),
}

/// One rule of a token: its permissions hold on each of its scopes.
#[derive(Debug, Clone, PartialEq, Eq)]
pub struct Limit {
    pub scopes: Vec<Scope>,
    pub permissions: Vec<Permission>,
}

/// A stored token, as read back from the database.
#[derive(Debug, Clone, PartialEq, Eq)]
pub struct Token {
    pub version: i32,
    pub token_key: String,
    /// Start of the validity window, in milliseconds since the epoch.
    pub timestamp_from: Option<i64>,
    /// End of the validity window, in milliseconds since the epoch.
    pub timestamp_to: Option<i64>,
    pub token_limit: Vec<Limit>,
    pub username: Option<String>,
}

/// Who a credential turned out to be: the super token, which may do
/// anything, or the holder of a stored token.
#[derive(Debug, Clone, PartialEq, Eq)]
pub enum Principal {
    SuperToken,
    Holder(Token),
}

/// Two scopes are the same (names compared by their characters).
pub open spec fn same_scope(a: Scope, b: Scope) -> bool {
    match (a, b) {
        (Scope::Global, Scope::Global) => true,
        (Scope::AgentUuid(x), Scope::AgentUuid(y)) => x == y,
        (Scope::KvNamespace(x), Scope::KvNamespace(y)) => x@ == y@,
        _ => false,
    }
}

/// Two permissions are the same (names compared by their characters).
pub open spec fn same_permission(a: Permission, b: Permission) -> bool {
    match (a, b) {
        (Permission::Kv(x), Permission::Kv(y)) => match (x, y) {
            (Kv::Read(p), Kv::Read(q)) => p@ == q@,
            (Kv::Write(p), Kv::Write(q)) => p@ == q@,
            (Kv::Delete(p), Kv::Delete(q)) => p@ == q@,
            (Kv::ListAllKeys, Kv::ListAllKeys) => true,
            _ => false,
        },
        (Permission::CrontabResult(x), Permission::CrontabResult(y)) => match (x, y) {
            (CrontabResult::Read(p), CrontabResult::Read(q)) => p@ == q@,
            (CrontabResult::Delete(p), CrontabResult::Delete(q)) => p@ == q@,
            _ => false,
        },
        (Permission::NodeGet(x), Permission::NodeGet(y)) => x == y,
        (Permission::Crontab(x), Permission::Crontab(y)) => x == y,
        (Permission::Task(x), Permission::Task(y)) => match (x, y) {
            (Task::Create(p), Task::Create(q)) => p@ == q@,
            (Task::Write(p), Task::Write(q)) => p@ == q@,
            _ => false,
        },
        (Permission::StaticMonitoring(x), Permission::StaticMonitoring(y)) => x == y,
        (Permission::DynamicMonitoring(x), Permission::DynamicMonitoring(y)) => x == y,
        (Permission::Metadata(x), Permission::Metadata(y)) => x == y,
        _ => false,
    }
}

/// Whether a rule's scope covers a requested scope: `Global` covers every
/// scope; an agent or namespace scope covers only itself.
pub open spec fn scope_covers(granted: Scope, requested: Scope) -> bool {
    match (granted, requested) {
        (Scope::Global, _) => true,
        (Scope::AgentUuid(x), Scope::AgentUuid(y)) => x == y,
        (Scope::KvNamespace(x), Scope::KvNamespace(y)) => x@ == y@,
        _ => false,
    }
}

/// Whether a granted permission satisfies a required one: the same
/// permission, or a key-value read/write/delete (or crontab-result
/// read/delete) pattern that matches the required key (or crontab name).
pub open spec fn permission_grants(granted: Permission, required: Permission) -> bool {
    same_permission(granted, required) || match (granted, required) {
        (Permission::Kv(Kv::Read(p)), Permission::Kv(Kv::Read(k))) => pattern_matches(k@, p@),
        (Permission::Kv(Kv::Write(p)), Permission::Kv(Kv::Write(k))) => pattern_matches(k@, p@),
        (Permission::Kv(Kv::Delete(p)), Permission::Kv(Kv::Delete(k))) => pattern_matches(k@, p@),
        (
            Permission::CrontabResult(CrontabResult::Read(p)),
            Permission::CrontabResult(CrontabResult::Read(n)),
        ) => pattern_matches(n@, p@),
        (
            Permission::CrontabResult(CrontabResult::Delete(p)),
            Permission::CrontabResult(CrontabResult::Delete(n)),
        ) => pattern_matches(n@, p@),
        _ => false,
    }
}

/// Whether one rule covers `scope` with a permission granting `permission`.
pub open spec fn limit_allows(limit: Limit, scope: Scope, permission: Permission) -> bool {
    &&& exists|i: int| 0 <= i < limit.scopes@.len() && #[trigger] scope_covers(limit.scopes@[i], scope)
    &&& exists|j: int|
        0 <= j < limit.permissions@.len() && #[trigger] permission_grants(
            limit.permissions@[j],
            permission,
        )
}

/// Whether some rule of `token` covers the pair (`scope`, `permission`).
pub open spec fn token_covers(token: Token, scope: Scope, permission: Permission) -> bool {
    exists|k: int|
        0 <= k < token.token_limit@.len() && #[trigger] limit_allows(
            token.token_limit@[k],
            scope,
            permission,
        )
}

/// Whether `now` lies in the token's validity window (both ends inclusive).
pub open spec fn token_in_window(token: Token, now: i64) -> bool {
    &&& (token.timestamp_from matches Some(from) ==> from <= now)
    &&& (token.timestamp_to matches Some(to) ==> now <= to)
}

/// What a stored token grants at time `now`: it is in its window, and every
/// requested (scope, permission) pair is covered by one of its rules.
pub open spec fn token_allows(
    token: Token,
    now: i64,
    scopes: Seq<Scope>,
    permissions: Seq<Permission>,
) -> bool {
    &&& token_in_window(token, now)
    &&& forall|i: int, j: int|
        0 <= i < scopes.len() && 0 <= j < permissions.len() ==> #[trigger] token_covers(
            token,
            scopes[i],
            permissions[j],
        )
}

/// What a principal may do: the super token anything, a holder what its
/// token allows.
pub open spec fn principal_allows(
    principal: Principal,
    now: i64,
    scopes: Seq<Scope>,
    permissions: Seq<Permission>,
) -> bool {
    match principal {
        Principal::SuperToken => true,
        Principal::Holder(token) => token_allows(token, now, scopes, permissions),
    }
}

fn scope_covers_exec(granted: &Scope, requested: &Scope) -> (r: bool)
    ensures
        r == scope_covers(*granted, *requested),
{
    match (granted, requested) {
        (Scope::Global, _) => true,
        (Scope::AgentUuid(x), Scope::AgentUuid(y)) => *x == *y,
        (Scope::KvNamespace(x), Scope::KvNamespace(y)) => str_equal(x.as_str(), y.as_str()),
        _ => false,
    }
}

fn permission_equal(a: &Permission, b: &Permission) -> (r: bool)
    ensures
        r == same_permission(*a, *b),
{
    match (a, b) {
        (Permission::Kv(x), Permission::Kv(y)) => match (x, y) {
            (Kv::Read(p), Kv::Read(q)) => str_equal(p.as_str(), q.as_str()),
            (Kv::Write(p), Kv::Write(q)) => str_equal(p.as_str(), q.as_str()),
            (Kv::Delete(p), Kv::Delete(q)) => str_equal(p.as_str(), q.as_str()),
            (Kv::ListAllKeys, Kv::ListAllKeys) => true,
            _ => false,
        },
        (Permission::CrontabResult(x), Permission::CrontabResult(y)) => match (x, y) {
            (CrontabResult::Read(p), CrontabResult::Read(q)) => str_equal(p.as_str(), q.as_str()),
            (CrontabResult::Delete(p), CrontabResult::Delete(q)) => str_equal(
                p.as_str(),
                q.as_str(),
            ),
            _ => false,
        },
        (Permission::NodeGet(x), Permission::NodeGet(y)) => match (x, y) {
            (NodeGet::ListAllAgentUuid, NodeGet::ListAllAgentUuid) => true,
            (NodeGet::ExecSql, NodeGet::ExecSql) => true,
            _ => false,
        },
        (Permission::Crontab(Crontab::Write), Permission::Crontab(Crontab::Write)) => true,
        (Permission::Task(x), Permission::Task(y)) => match (x, y) {
            (Task::Create(p), Task::Create(q)) => str_equal(p.as_str(), q.as_str()),
            (Task::Write(p), Task::Write(q)) => str_equal(p.as_str(), q.as_str()),
            _ => false,
        },
        (
            Permission::StaticMonitoring(StaticMonitoring::Delete),
            Permission::StaticMonitoring(StaticMonitoring::Delete),
        ) => true,
        (
            Permission::DynamicMonitoring(DynamicMonitoring::Delete),
            Permission::DynamicMonitoring(DynamicMonitoring::Delete),
        ) => true,
        (Permission::Metadata(Metadata::Read), Permission::Metadata(Metadata::Read)) => true,
        _ => false,
    }
}

/// Whether the `granted` permission satisfies the `required` one
/// (see `permission_grants`).
pub fn permission_matches(granted: &Permission, required: &Permission) -> (r: bool)
    ensures
        r == permission_grants(*granted, *required),
{
    if permission_equal(granted, required) {
        return true;
    }
    match (granted, required) {
        (Permission::Kv(Kv::Read(pattern)), Permission::Kv(Kv::Read(key))) => wildcard_matches_pattern(
            key.as_str(),
            pattern.as_str(),
        ),
        (Permission::Kv(Kv::Write(pattern)), Permission::Kv(Kv::Write(key))) => wildcard_matches_pattern(
            key.as_str(),
            pattern.as_str(),
        ),
        (Permission::Kv(Kv::Delete(pattern)), Permission::Kv(Kv::Delete(key))) => wildcard_matches_pattern(
            key.as_str(),
            pattern.as_str(),
        ),
        (
            Permission::CrontabResult(CrontabResult::Read(pattern)),
            Permission::CrontabResult(CrontabResult::Read(name)),
        ) => wildcard_matches_pattern(name.as_str(), pattern.as_str()),
        (
            Permission::CrontabResult(CrontabResult::Delete(pattern)),
            Permission::CrontabResult(CrontabResult::Delete(name)),
        ) => wildcard_matches_pattern(name.as_str(), pattern.as_str()),
        _ => false,
    }
}

fn scopes_cover_exec(scopes: &Vec<Scope>, scope: &Scope) -> (r: bool)
    ensures
        r == exists|x: int| 0 <= x < scopes@.len() && #[trigger] scope_covers(scopes@[x], *scope),
{
    let mut i: usize = 0;
    while i < scopes.len()
        invariant
            i <= scopes@.len(),
            forall|x: int| 0 <= x < i ==> !scope_covers(#[trigger] scopes@[x], *scope),
        decreases scopes@.len() - i,
    {
        if scope_covers_exec(&scopes[i], scope) {
            return true;
        }
        i = i + 1;
    }
    false
}

fn limit_allows_exec(limit: &Limit, scope: &Scope, permission: &Permission) -> (r: bool)
    ensures
        r == limit_allows(*limit, *scope, *permission),
{
    if !scopes_cover_exec(&limit.scopes, scope) {
        return false;
    }
    let mut j: usize = 0;
    while j < limit.permissions.len()
        invariant
            j <= limit.permissions@.len(),
            exists|x: int| 0 <= x < limit.scopes@.len() && #[trigger] scope_covers(limit.scopes@[x], *scope),
            forall|x: int|
                0 <= x < j ==> !permission_grants(#[trigger] limit.permissions@[x], *permission),
        decreases limit.permissions@.len() - j,
    {
        if permission_matches(&limit.permissions[j], permission) {
            return true;
        }
        j = j + 1;
    }
    false
}

fn token_covers_exec(token: &Token, scope: &Scope, permission: &Permission) -> (r: bool)
    ensures
        r == token_covers(*token, *scope, *permission),
{
    let mut k: usize = 0;
    while k < token.token_limit.len()
        invariant
            k <= token.token_limit@.len(),
            forall|x: int|
                0 <= x < k ==> !limit_allows(#[trigger] token.token_limit@[x], *scope, *permission),
        decreases token.token_limit@.len() - k,
    {
        if limit_allows_exec(&token.token_limit[k], scope, permission) {
            return true;
        }
        k = k + 1;
    }
    false
}

pub(crate) fn token_in_window_exec(token: &Token, now: i64) -> (r: bool)
    ensures
        r == token_in_window(*token, now),
{
    if let Some(from) = token.timestamp_from {
        if now < from {
            return false;
        }
    }
    if let Some(to) = token.timestamp_to {
        if now > to {
            return false;
        }
    }
    true
}

/// Whether the stored `token`, at time `now`, grants every permission in
/// `permissions` on every scope in `scopes`.
pub fn token_grants(
    token: &Token,
    now: i64,
    scopes: &Vec<Scope>,
    permissions: &Vec<Permission>,
) -> (r: bool)
    ensures
        r == token_allows(*token, now, scopes@, permissions@),
{
    if !token_in_window_exec(token, now) {
        return false;
    }
    let mut i: usize = 0;
    while i < scopes.len()
        invariant
            i <= scopes@.len(),
            token_in_window(*token, now),
            forall|x: int, y: int|
                0 <= x < i && 0 <= y < permissions@.len() ==> #[trigger] token_covers(
                    *token,
                    scopes@[x],
                    permissions@[y],
                ),
        decreases scopes@.len() - i,
    {
        let mut j: usize = 0;
        while j < permissions.len()
            invariant
                i < scopes@.len(),
                j <= permissions@.len(),
                token_in_window(*token, now),
                forall|x: int, y: int|
                    0 <= x < i && 0 <= y < permissions@.len() ==> #[trigger] token_covers(
                        *token,
                        scopes@[x],
                        permissions@[y],
                    ),
                forall|y: int|
                    0 <= y < j ==> #[trigger] token_covers(*token, scopes@[i as int], permissions@[y]),
            decreases permissions@.len() - j,
        {
            if !token_covers_exec(token, &scopes[i], &permissions[j]) {
                return false;
            }
            j = j + 1;
        }
        i = i + 1;
    }
    true
}

/// The permission decision of the server: whether `principal`, at time
/// `now`, may use every permission in `permissions` on every scope in
/// `scopes`. The super token may do anything; a stored token must be inside
/// its validity window and cover each (scope, permission) pair with one rule.
pub fn check_token_limit(
    principal: &Principal,
    now: i64,
    scopes: &Vec<Scope>,
    permissions: &Vec<Permission>,
) -> (r: bool)
    ensures
        r == principal_allows(*principal, now, scopes@, permissions@),
{
    match principal {
        Principal::SuperToken => true,
        Principal::Holder(token) => token_grants(token, now, scopes, permissions),
    }
}

/// Every permission grants itself.
pub proof fn lemma_permission_grants_itself(p: Permission)
    ensures
        permission_grants(p, p),
{
}

/// The global scope covers every scope.
pub proof fn lemma_global_scope_covers_all(s: Scope)
    ensures
        scope_covers(Scope::Global, s),
{
}

/// The key pattern `*` matches every key.
pub proof fn lemma_star_pattern_matches_all(key: Seq<char>)
    ensures
        pattern_matches(key, "*"@),
{
    reveal_strlit("*");
    assert(ends_with_wildcard("*"@));
    assert("*"@.drop_last() =~= key.subrange(0, 0));
}

/// A token allows a request exactly when it is in its window and allows
/// each single (scope, permission) pair of it: the pairs are checked one by
/// one, each by one rule.
pub proof fn lemma_token_allows_pairwise(token: Token, now: i64, scopes: Seq<Scope>, permissions: Seq<Permission>)
    ensures
        token_allows(token, now, scopes, permissions) <==> (token_in_window(token, now) && forall|i: int, j: int|
            0 <= i < scopes.len() && 0 <= j < permissions.len() ==> #[trigger] token_allows(
                token,
                now,
                seq![scopes[i]],
                seq![permissions[j]],
            )),
{
    assert forall|i: int, j: int| 0 <= i < scopes.len() && 0 <= j < permissions.len() implies
        #[trigger] token_allows(token, now, seq![scopes[i]], seq![permissions[j]]) == (token_in_window(token, now)
            && token_covers(token, scopes[i], permissions[j])) by {
        lemma_token_allows_single(token, now, scopes[i], permissions[j]);
    }
    if token_allows(token, now, scopes, permissions) {
        assert forall|i: int, j: int| 0 <= i < scopes.len() && 0 <= j < permissions.len() implies
            #[trigger] token_allows(token, now, seq![scopes[i]], seq![permissions[j]]) by {
            assert(token_covers(token, scopes[i], permissions[j]));
        }
    }
    if token_in_window(token, now) && forall|i: int, j: int|
        0 <= i < scopes.len() && 0 <= j < permissions.len() ==> #[trigger] token_allows(token, now, seq![scopes[i]], seq![permissions[j]]) {
        assert forall|i: int, j: int| 0 <= i < scopes.len() && 0 <= j < permissions.len() implies
            #[trigger] token_covers(token, scopes[i], permissions[j]) by {
            assert(token_allows(token, now, seq![scopes[i]], seq![permissions[j]]));
        }
    }
}

/// A request with one scope and one permission is allowed exactly when the
/// token is in its window and one rule covers the pair.
pub proof fn lemma_token_allows_single(token: Token, now: i64, scope: Scope, p: Permission)
    ensures
        token_allows(token, now, seq![scope], seq![p]) == (token_in_window(token, now) && token_covers(token, scope, p)),
{
    if token_in_window(token, now) && token_covers(token, scope, p) {
        assert forall|i: int, j: int| 0 <= i < 1 && 0 <= j < 1 implies #[trigger] token_covers(token, seq![scope][i], seq![p][j]) by {}
    }
    if token_allows(token, now, seq![scope], seq![p]) {
        assert(token_covers(token, seq![scope][0], seq![p][0]));
    }
}

/// A request with no scopes or no permissions is allowed exactly when the
/// token is in its window.
pub proof fn lemma_empty_request(token: Token, now: i64, scopes: Seq<Scope>, permissions: Seq<Permission>)
    requires
        scopes.len() == 0 || permissions.len() == 0,
    ensures
        token_allows(token, now, scopes, permissions) == token_in_window(token, now),
{
}

/// A token whose rules include every rule of another token, with the same
/// validity window, allows every request that the other allows: adding
/// rules never takes a permission away.
pub proof fn lemma_more_rules_allow_more(
    narrower: Token,
    wider: Token,
    now: i64,
    scopes: Seq<Scope>,
    permissions: Seq<Permission>,
)
    requires
        narrower.timestamp_from == wider.timestamp_from,
        narrower.timestamp_to == wider.timestamp_to,
        forall|k: int| 0 <= k < narrower.token_limit@.len() ==> wider.token_limit@.contains(
            #[trigger] narrower.token_limit@[k],
        ),
        token_allows(narrower, now, scopes, permissions),
    ensures
        token_allows(wider, now, scopes, permissions),
{
    assert forall|i: int, j: int| 0 <= i < scopes.len() && 0 <= j < permissions.len() implies #[trigger] token_covers(
        wider,
        scopes[i],
        permissions[j],
    ) by {
        assert(token_covers(narrower, scopes[i], permissions[j]));
        let k = choose|k: int| 0 <= k < narrower.token_limit@.len() && #[trigger] limit_allows(
            narrower.token_limit@[k],
            scopes[i],
            permissions[j],
        );
        assert(wider.token_limit@.contains(narrower.token_limit@[k]));
        let m = choose|m: int| 0 <= m < wider.token_limit@.len() && wider.token_limit@[m] == narrower.token_limit@[k];
        assert(limit_allows(wider.token_limit@[m], scopes[i], permissions[j]));
    }
}

/// A token that allows a request allows every request that asks for some of
/// the same scopes and some of the same permissions.
pub proof fn lemma_smaller_request_allowed(
    token: Token,
    now: i64,
    scopes: Seq<Scope>,
    permissions: Seq<Permission>,
    fewer_scopes: Seq<Scope>,
    fewer_permissions: Seq<Permission>,
)
    requires
        forall|i: int| 0 <= i < fewer_scopes.len() ==> scopes.contains(#[trigger] fewer_scopes[i]),
        forall|j: int| 0 <= j < fewer_permissions.len() ==> permissions.contains(#[trigger] fewer_permissions[j]),
        token_allows(token, now, scopes, permissions),
    ensures
        token_allows(token, now, fewer_scopes, fewer_permissions),
{
    assert forall|i: int, j: int| 0 <= i < fewer_scopes.len() && 0 <= j < fewer_permissions.len() implies #[trigger] token_covers(
        token,
        fewer_scopes[i],
        fewer_permissions[j],
    ) by {
        assert(scopes.contains(fewer_scopes[i]));
        assert(permissions.contains(fewer_permissions[j]));
        let a = choose|a: int| 0 <= a < scopes.len() && scopes[a] == fewer_scopes[i];
        let b = choose|b: int| 0 <= b < permissions.len() && permissions[b] == fewer_permissions[j];
        assert(token_covers(token, scopes[a], permissions[b]));
    }
}

/// Key-value read, write and delete permissions and crontab-result read and
/// delete permissions all follow the wildcard rule: a granted pattern ending
/// in `*` satisfies a required name exactly when the name starts with the
/// text before the `*`, and any other granted pattern satisfies only the
/// name equal to it.
pub proof fn lemma_pattern_permissions_follow_wildcard_rule(p: String, n: String)
    ensures
        ({
            let m = if p@.len() > 0 && p@[p@.len() - 1] == '*' {
                n@.len() >= p@.len() - 1 && n@.subrange(0, p@.len() - 1) == p@.subrange(0, p@.len() - 1)
            } else {
                n@ == p@
            };
            &&& permission_grants(Permission::Kv(Kv::Read(p)), Permission::Kv(Kv::Read(n))) == m
            &&& permission_grants(Permission::Kv(Kv::Write(p)), Permission::Kv(Kv::Write(n))) == m
            &&& permission_grants(Permission::Kv(Kv::Delete(p)), Permission::Kv(Kv::Delete(n))) == m
            &&& permission_grants(
                Permission::CrontabResult(CrontabResult::Read(p)),
                Permission::CrontabResult(CrontabResult::Read(n)),
            ) == m
            &&& permission_grants(
                Permission::CrontabResult(CrontabResult::Delete(p)),
                Permission::CrontabResult(CrontabResult::Delete(n)),
            ) == m
        }),
{
    if p@.len() > 0 && p@[p@.len() - 1] == '*' {
        assert(p@.drop_last() =~= p@.subrange(0, p@.len() - 1));
        if n@ == p@ {
            assert(n@.subrange(0, p@.len() - 1) =~= p@.subrange(0, p@.len() - 1));
        }
        if n@.len() >= p@.len() - 1 {
            assert(n@.subrange(0, p@.drop_last().len() as int) == n@.subrange(0, p@.len() - 1));
        }
    }
}

} // verus!
