use vstd::prelude::*;
use vstd::string::StringExecFns;
use crate::error::NodegetError;
use crate::permission::{token_in_window, Limit, NodeGet, Permission, Principal, Scope, Token};

verus! {

/// Which agents a credential may list.
#[derive(Debug, Clone, PartialEq, Eq)]
pub enum AgentUuidListPermission {
    /// Every agent.
    All,
    /// Only the agents in this set (no UUID occurs twice).
    Scoped(Vec<u128>),
}

/// `p` is the permission to list agent UUIDs.
pub open spec fn is_list_permission(p: Permission) -> bool {
    p == Permission::NodeGet(NodeGet::ListAllAgentUuid)
}

/// The rule holds the permission to list agent UUIDs.
pub open spec fn limit_lists(limit: Limit) -> bool {
    exists|j: int| 0 <= j < limit.permissions@.len() && #[trigger] is_list_permission(limit.permissions@[j])
}

/// The rule holds some permission other than listing agent UUIDs, so its
/// agents can be operated on.
pub open spec fn limit_operates(limit: Limit) -> bool {
    exists|j: int| 0 <= j < limit.permissions@.len() && !#[trigger] is_list_permission(limit.permissions@[j])
}

/// The rule has the global scope.
pub open spec fn limit_has_global(limit: Limit) -> bool {
    exists|i: int| 0 <= i < limit.scopes@.len() && #[trigger] limit.scopes@[i] == Scope::Global
}

/// The rule has the scope of agent `u`.
pub open spec fn limit_has_agent(limit: Limit, u: u128) -> bool {
    exists|i: int| 0 <= i < limit.scopes@.len() && #[trigger] limit.scopes@[i] == Scope::AgentUuid(u)
}

/// Some rule grants listing on the global scope.
pub open spec fn lists_globally(token: Token) -> bool {
    exists|k: int|
        0 <= k < token.token_limit@.len() && limit_lists(#[trigger] token.token_limit@[k])
            && limit_has_global(token.token_limit@[k])
}

/// Some rule among the first `n` grants listing on agent `u`.
pub open spec fn lists_agent_before(token: Token, n: int, u: u128) -> bool {
    exists|k: int|
        0 <= k < n && k < token.token_limit@.len() && limit_lists(#[trigger] token.token_limit@[k])
            && limit_has_agent(token.token_limit@[k], u)
}

/// Some rule among the first `n` grants an operation on agent `u`.
pub open spec fn operates_agent_before(token: Token, n: int, u: u128) -> bool {
    exists|k: int|
        0 <= k < n && k < token.token_limit@.len() && limit_operates(#[trigger] token.token_limit@[k])
            && limit_has_agent(token.token_limit@[k], u)
}

/// Some rule grants listing on agent `u`.
pub open spec fn lists_agent(token: Token, u: u128) -> bool {
    lists_agent_before(token, token.token_limit@.len() as int, u)
}

/// Some rule grants an operation on agent `u`.
pub open spec fn operates_agent(token: Token, u: u128) -> bool {
    operates_agent_before(token, token.token_limit@.len() as int, u)
}

/// The message for a token whose window has not begun.
pub open spec fn not_yet_valid_message() -> Seq<char> {
    "Token is not yet valid"@
}

/// The message for a token whose window has ended.
pub open spec fn expired_message() -> Seq<char> {
    "Token has expired"@
}

/// The message for a token without any listing permission.
pub open spec fn list_denied_message() -> Seq<char> {
    "Permission Denied: Insufficient NodeGet ListAllAgentUuid permissions"@
}

/// The window error that a token gives at `now`, if any: a window that has
/// not begun is reported before one that has ended.
pub open spec fn window_error(token: Token, now: i64) -> Option<Seq<char>> {
    if token.timestamp_from matches Some(from) && now < from {
        Some(not_yet_valid_message())
    } else if token.timestamp_to matches Some(to) && now > to {
        Some(expired_message())
    } else {
        None
    }
}

/// A token is in its window exactly when it gives no window error.
pub proof fn lemma_window_error_iff(token: Token, now: i64)
    ensures
        window_error(token, now) is None <==> token_in_window(token, now),
{
}

/// Checks the token's validity window, reporting the first violated end.
pub fn check_token_window(token: &Token, now: i64) -> (r: Result<(), NodegetError>)
    ensures
        match window_error(*token, now) {
            None => r is Ok,
            Some(msg) => r matches Err(NodegetError::PermissionDenied(m)) && m@ == msg,
        },
{
    if let Some(from) = token.timestamp_from {
        if now < from {
            return Err(NodegetError::PermissionDenied(String::from_str("Token is not yet valid")));
        }
    }
    if let Some(to) = token.timestamp_to {
        if now > to {
            return Err(NodegetError::PermissionDenied(String::from_str("Token has expired")));
        }
    }
    Ok(())
}

fn contains_u128(v: &Vec<u128>, x: u128) -> (r: bool)
    ensures
        r == v@.contains(x),
{
    let mut i: usize = 0;
    while i < v.len()
        invariant
            i <= v@.len(),
            forall|j: int| 0 <= j < i ==> v@[j] != x,
        decreases v@.len() - i,
    {
        if v[i] == x {
            return true;
        }
        i = i + 1;
    }
    false
}

fn limit_flags(limit: &Limit) -> (r: (bool, bool, bool))
    ensures
        r.0 == limit_lists(*limit),
        r.1 == limit_operates(*limit),
        r.2 == limit_has_global(*limit),
{
    let mut lists = false;
    let mut operates = false;
    let mut j: usize = 0;
    while j < limit.permissions.len()
        invariant
            j <= limit.permissions@.len(),
            lists == exists|y: int| 0 <= y < j && #[trigger] is_list_permission(limit.permissions@[y]),
            operates == exists|y: int| 0 <= y < j && !#[trigger] is_list_permission(limit.permissions@[y]),
        decreases limit.permissions@.len() - j,
    {
        let is_list = match &limit.permissions[j] {
            Permission::NodeGet(NodeGet::ListAllAgentUuid) => true,
            _ => false,
        };
        let ghost p = limit.permissions@[j as int];
        assert(is_list == is_list_permission(p));
        if is_list {
            lists = true;
        } else {
            operates = true;
        }
        assert(lists == exists|y: int| 0 <= y < j + 1 && #[trigger] is_list_permission(limit.permissions@[y])) by {
            if is_list_permission(p) {
                assert(0 <= j < j + 1 && is_list_permission(limit.permissions@[j as int]));
            }
        }
        assert(operates == exists|y: int| 0 <= y < j + 1 && !#[trigger] is_list_permission(limit.permissions@[y])) by {
            if !is_list_permission(p) {
                assert(0 <= j < j + 1 && !is_list_permission(limit.permissions@[j as int]));
            }
        }
        j = j + 1;
    }
    let mut global = false;
    let mut i: usize = 0;
    while i < limit.scopes.len()
        invariant
            i <= limit.scopes@.len(),
            global == exists|x: int| 0 <= x < i && #[trigger] limit.scopes@[x] == Scope::Global,
        decreases limit.scopes@.len() - i,
    {
        if let Scope::Global = &limit.scopes[i] {
            global = true;
        }
        i = i + 1;
    }
    (lists, operates, global)
}

fn add_agent_scopes(set: &mut Vec<u128>, limit: &Limit)
    requires
        old(set)@.no_duplicates(),
    ensures
        final(set)@.no_duplicates(),
        forall|u: u128| #[trigger] final(set)@.contains(u) <==> (old(set)@.contains(u) || limit_has_agent(*limit, u)),
{
    let mut i: usize = 0;
    while i < limit.scopes.len()
        invariant
            i <= limit.scopes@.len(),
            set@.no_duplicates(),
            forall|u: u128| #[trigger] set@.contains(u) <==> (old(set)@.contains(u)
                || exists|x: int| 0 <= x < i && #[trigger] limit.scopes@[x] == Scope::AgentUuid(u)),
        decreases limit.scopes@.len() - i,
    {
        let ghost before = set@;
        if let Scope::AgentUuid(u) = &limit.scopes[i] {
            let u = *u;
            if !contains_u128(set, u) {
                set.push(u);
                assert(set@ == before.push(u));
            }
        }
        assert forall|w: u128| #[trigger] set@.contains(w) <==> (old(set)@.contains(w)
            || exists|x: int| 0 <= x < i + 1 && #[trigger] limit.scopes@[x] == Scope::AgentUuid(w)) by {
            if limit.scopes@[i as int] == Scope::AgentUuid(w) {
                assert(0 <= i < i + 1 && limit.scopes@[i as int] == Scope::AgentUuid(w));
                if !before.contains(w) {
                    assert(set@[set@.len() - 1] == w);
                }
            } else {
                if set@.contains(w) && set@ != before {
                    let y = choose|y: int| 0 <= y < set@.len() && set@[y] == w;
                    if y == set@.len() - 1 {
                        assert(limit.scopes@[i as int] == Scope::AgentUuid(w));
                    } else {
                        assert(before[y] == w);
                    }
                }
                if before.contains(w) && set@ != before {
                    let y = choose|y: int| 0 <= y < before.len() && before[y] == w;
                    assert(set@[y] == w);
                }
                if exists|x: int| 0 <= x < i + 1 && #[trigger] limit.scopes@[x] == Scope::AgentUuid(w) {
                    let x = choose|x: int| 0 <= x < i + 1 && #[trigger] limit.scopes@[x] == Scope::AgentUuid(w);
                    assert(x < i);
                }
            }
        }
        assert(set@.no_duplicates()) by {
            if set@ != before {
                assert forall|a: int, b: int| 0 <= a < set@.len() && 0 <= b < set@.len() && a != b implies set@[a] != set@[b] by {
                    if a == set@.len() - 1 {
                        assert(before[b] == set@[b]);
                    } else if b == set@.len() - 1 {
                        assert(before[a] == set@[a]);
                    }
                }
            }
        }
        i = i + 1;
    }
}

/// The agents that both sets hold.
fn intersect_uuids(a: &Vec<u128>, b: &Vec<u128>) -> (r: Vec<u128>)
    requires
        a@.no_duplicates(),
    ensures
        r@.no_duplicates(),
        forall|u: u128| #[trigger] r@.contains(u) <==> (a@.contains(u) && b@.contains(u)),
{
    let mut r: Vec<u128> = Vec::new();
    let mut i: usize = 0;
    while i < a.len()
        invariant
            i <= a@.len(),
            a@.no_duplicates(),
            r@.no_duplicates(),
            forall|x: int| 0 <= x < r@.len() ==> exists|y: int| 0 <= y < i && a@[y] == #[trigger] r@[x],
            forall|u: u128| #[trigger] r@.contains(u) <==> (exists|y: int| 0 <= y < i && a@[y] == u) && b@.contains(u),
        decreases a@.len() - i,
    {
        let u = a[i];
        let ghost before = r@;
        if contains_u128(b, u) {
            assert(!r@.contains(u)) by {
                if r@.contains(u) {
                    let x = choose|x: int| 0 <= x < r@.len() && r@[x] == u;
                    let y = choose|y: int| 0 <= y < i && a@[y] == #[trigger] r@[x];
                    assert(a@[y] == a@[i as int]);
                }
            }
            r.push(u);
            assert(r@ == before.push(u));
        }
        assert forall|x: int| 0 <= x < r@.len() implies exists|y: int| 0 <= y < i + 1 && a@[y] == #[trigger] r@[x] by {
            if x == before.len() {
                assert(a@[i as int] == r@[x]);
            } else {
                assert(r@[x] == before[x]);
            }
        }
        assert forall|w: u128| #[trigger] r@.contains(w) <==> (exists|y: int| 0 <= y < i + 1 && a@[y] == w) && b@.contains(w) by {
            if r@.contains(w) && r@ != before {
                let x = choose|x: int| 0 <= x < r@.len() && r@[x] == w;
                if x < before.len() {
                    assert(before[x] == w);
                }
            }
            if before.contains(w) && r@ != before {
                let x = choose|x: int| 0 <= x < before.len() && before[x] == w;
                assert(r@[x] == w);
            }
            if (exists|y: int| 0 <= y < i + 1 && a@[y] == w) && b@.contains(w) {
                let y = choose|y: int| 0 <= y < i + 1 && a@[y] == w;
                if y == i {
                    assert(r@[r@.len() - 1] == w);
                }
            }
        }
        assert(r@.no_duplicates()) by {
            if r@ != before {
                assert forall|p: int, q: int| 0 <= p < r@.len() && 0 <= q < r@.len() && p != q implies r@[p] != r@[q] by {
                    if p == r@.len() - 1 {
                        assert(before[q] == r@[q]);
                    } else if q == r@.len() - 1 {
                        assert(before[p] == r@[p]);
                    }
                }
            }
        }
        i = i + 1;
    }
    r
}

/// Which agents `principal`, at time `now`, may list. The super token may
/// list all. A stored token outside its window is refused. A rule that
/// grants listing on the global scope allows all agents; otherwise the
/// agents are those that some rule grants listing on and some rule grants
/// another operation on, and a token that grants listing on no agent is
/// refused.
pub fn resolve_list_agent_uuid_permission(principal: &Principal, now: i64) -> (r: Result<AgentUuidListPermission, NodegetError>)
    ensures
        match principal {
            Principal::SuperToken => r matches Ok(AgentUuidListPermission::All),
            Principal::Holder(token) => match window_error(*token, now) {
                Some(msg) => r matches Err(NodegetError::PermissionDenied(m)) && m@ == msg,
                None => if lists_globally(*token) {
                    r matches Ok(AgentUuidListPermission::All)
                } else if !exists|u: u128| lists_agent(*token, u) {
                    r matches Err(NodegetError::PermissionDenied(m)) && m@ == list_denied_message()
                } else {
                    r matches Ok(AgentUuidListPermission::Scoped(v)) && v@.no_duplicates()
                        && forall|u: u128| #[trigger] v@.contains(u) <==> (lists_agent(*token, u) && operates_agent(*token, u))
                },
            },
        },
{
    match principal {
        Principal::SuperToken => Ok(AgentUuidListPermission::All),
        Principal::Holder(token) => resolve_for_token(token, now),
    }
}

fn resolve_for_token(token: &Token, now: i64) -> (r: Result<AgentUuidListPermission, NodegetError>)
    ensures
        match window_error(*token, now) {
            Some(msg) => r matches Err(NodegetError::PermissionDenied(m)) && m@ == msg,
            None => if lists_globally(*token) {
                r matches Ok(AgentUuidListPermission::All)
            } else if !exists|u: u128| lists_agent(*token, u) {
                r matches Err(NodegetError::PermissionDenied(m)) && m@ == list_denied_message()
            } else {
                r matches Ok(AgentUuidListPermission::Scoped(v)) && v@.no_duplicates()
                    && forall|u: u128| #[trigger] v@.contains(u) <==> (lists_agent(*token, u) && operates_agent(*token, u))
            },
        },
{
    if let Err(e) = check_token_window(token, now) {
        return Err(e);
    }
    let mut global = false;
    let mut listed: Vec<u128> = Vec::new();
    let mut operable: Vec<u128> = Vec::new();
    let mut k: usize = 0;
    while k < token.token_limit.len()
        invariant
            k <= token.token_limit@.len(),
            listed@.no_duplicates(),
            operable@.no_duplicates(),
            global == exists|x: int| 0 <= x < k && limit_lists(#[trigger] token.token_limit@[x]) && limit_has_global(token.token_limit@[x]),
            forall|u: u128| #[trigger] listed@.contains(u) <==> lists_agent_before(*token, k as int, u),
            forall|u: u128| #[trigger] operable@.contains(u) <==> operates_agent_before(*token, k as int, u),
        decreases token.token_limit@.len() - k,
    {
        let limit = &token.token_limit[k];
        let (lists, operates, has_global) = limit_flags(limit);
        let ghost old_listed = listed@;
        let ghost old_operable = operable@;
        if lists {
            if has_global {
                global = true;
            }
            add_agent_scopes(&mut listed, limit);
        }
        if operates {
            add_agent_scopes(&mut operable, limit);
        }
        assert forall|u: u128| #[trigger] listed@.contains(u) <==> lists_agent_before(*token, k + 1, u) by {
            if lists_agent_before(*token, k + 1, u) {
                let x = choose|x: int| 0 <= x < k + 1 && x < token.token_limit@.len() && limit_lists(#[trigger] token.token_limit@[x])
                    && limit_has_agent(token.token_limit@[x], u);
                if x < k {
                    assert(lists_agent_before(*token, k as int, u));
                }
            }
            if lists_agent_before(*token, k as int, u) {
                let x = choose|x: int| 0 <= x < k && x < token.token_limit@.len() && limit_lists(#[trigger] token.token_limit@[x])
                    && limit_has_agent(token.token_limit@[x], u);
                assert(lists_agent_before(*token, k + 1, u));
            }
            if lists && limit_has_agent(*limit, u) {
                assert(lists_agent_before(*token, k + 1, u));
            }
        }
        assert forall|u: u128| #[trigger] operable@.contains(u) <==> operates_agent_before(*token, k + 1, u) by {
            if operates_agent_before(*token, k + 1, u) {
                let x = choose|x: int| 0 <= x < k + 1 && x < token.token_limit@.len() && limit_operates(#[trigger] token.token_limit@[x])
                    && limit_has_agent(token.token_limit@[x], u);
                if x < k {
                    assert(operates_agent_before(*token, k as int, u));
                }
            }
            if operates_agent_before(*token, k as int, u) {
                let x = choose|x: int| 0 <= x < k && x < token.token_limit@.len() && limit_operates(#[trigger] token.token_limit@[x])
                    && limit_has_agent(token.token_limit@[x], u);
                assert(operates_agent_before(*token, k + 1, u));
            }
            if operates && limit_has_agent(*limit, u) {
                assert(operates_agent_before(*token, k + 1, u));
            }
        }
        k = k + 1;
    }
    if global {
        return Ok(AgentUuidListPermission::All);
    }
    if listed.len() == 0 {
        assert forall|u: u128| !lists_agent(*token, u) by {
            if lists_agent(*token, u) {
                assert(listed@.contains(u));
            }
        }
        return Err(NodegetError::PermissionDenied(String::from_str("Permission Denied: Insufficient NodeGet ListAllAgentUuid permissions")));
    }
    assert(listed@.contains(listed@[0]));
    assert(lists_agent(*token, listed@[0]));
    let allowed = intersect_uuids(&listed, &operable);
    Ok(AgentUuidListPermission::Scoped(allowed))
}

/// The agent UUIDs a listing returns: all of `all` for `All`, else those of
/// `all` in the allowed set, in the order of `all`.
pub open spec fn visible_uuids(permission: AgentUuidListPermission, all: Seq<u128>) -> Seq<u128> {
    match permission {
        AgentUuidListPermission::All => all,
        AgentUuidListPermission::Scoped(v) => all.filter(|u: u128| v@.contains(u)),
    }
}

/// Keeps, in order, the UUIDs of `all` that `permission` lets the caller see.
pub fn select_agent_uuids(permission: &AgentUuidListPermission, all: &Vec<u128>) -> (r: Vec<u128>)
    ensures
        r@ == visible_uuids(*permission, all@),
{
    match permission {
        AgentUuidListPermission::All => all.clone(),
        AgentUuidListPermission::Scoped(allowed) => {
            let ghost pred = |u: u128| allowed@.contains(u);
            let mut r: Vec<u128> = Vec::new();
            let mut i: usize = 0;
            while i < all.len()
                invariant
                    i <= all@.len(),
                    pred == (|u: u128| allowed@.contains(u)),
                    r@ == all@.subrange(0, i as int).filter(pred),
                decreases all@.len() - i,
            {
                proof {
                    reveal_with_fuel(Seq::<_>::filter, 1);
                    assert(all@.subrange(0, i + 1).drop_last() =~= all@.subrange(0, i as int));
                }
                if contains_u128(allowed, all[i]) {
                    r.push(all[i]);
                }
                i = i + 1;
            }
            assert(all@.subrange(0, all@.len() as int) =~= all@);
            r
        },
    }
}

/// Which agents a token's rules list and operate on, stated rule by rule:
/// some rule naming the agent holds `NodeGet::ListAllAgentUuid` for listing,
/// and some rule naming the agent holds any other permission for operating,
/// whether or not that rule also holds the listing permission.
pub proof fn lemma_listing_and_operating_rules(token: Token, u: u128)
    ensures
        lists_agent(token, u) <==> exists|k: int, i: int, j: int|
            #![trigger token.token_limit@[k].scopes@[i], token.token_limit@[k].permissions@[j]]
            0 <= k < token.token_limit@.len() && 0 <= i < token.token_limit@[k].scopes@.len() && 0 <= j
                < token.token_limit@[k].permissions@.len() && token.token_limit@[k].scopes@[i] == Scope::AgentUuid(u)
                && token.token_limit@[k].permissions@[j] == Permission::NodeGet(NodeGet::ListAllAgentUuid),
        operates_agent(token, u) <==> exists|k: int, i: int, j: int|
            #![trigger token.token_limit@[k].scopes@[i], token.token_limit@[k].permissions@[j]]
            0 <= k < token.token_limit@.len() && 0 <= i < token.token_limit@[k].scopes@.len() && 0 <= j
                < token.token_limit@[k].permissions@.len() && token.token_limit@[k].scopes@[i] == Scope::AgentUuid(u)
                && token.token_limit@[k].permissions@[j] != Permission::NodeGet(NodeGet::ListAllAgentUuid),
{
    let n = token.token_limit@.len() as int;
    if lists_agent(token, u) {
        let k = choose|k: int|
            0 <= k < n && k < token.token_limit@.len() && limit_lists(#[trigger] token.token_limit@[k])
                && limit_has_agent(token.token_limit@[k], u);
        let l = token.token_limit@[k];
        let j = choose|j: int| 0 <= j < l.permissions@.len() && #[trigger] is_list_permission(l.permissions@[j]);
        let i = choose|i: int| 0 <= i < l.scopes@.len() && #[trigger] l.scopes@[i] == Scope::AgentUuid(u);
        assert(token.token_limit@[k].scopes@[i] == Scope::AgentUuid(u));
        assert(token.token_limit@[k].permissions@[j] == Permission::NodeGet(NodeGet::ListAllAgentUuid));
    }
    if exists|k: int, i: int, j: int|
        #![trigger token.token_limit@[k].scopes@[i], token.token_limit@[k].permissions@[j]]
        0 <= k < token.token_limit@.len() && 0 <= i < token.token_limit@[k].scopes@.len() && 0 <= j
            < token.token_limit@[k].permissions@.len() && token.token_limit@[k].scopes@[i] == Scope::AgentUuid(u)
            && token.token_limit@[k].permissions@[j] == Permission::NodeGet(NodeGet::ListAllAgentUuid) {
        let (k, i, j) = choose|k: int, i: int, j: int|
            #![trigger token.token_limit@[k].scopes@[i], token.token_limit@[k].permissions@[j]]
            0 <= k < token.token_limit@.len() && 0 <= i < token.token_limit@[k].scopes@.len() && 0 <= j
                < token.token_limit@[k].permissions@.len() && token.token_limit@[k].scopes@[i] == Scope::AgentUuid(u)
                && token.token_limit@[k].permissions@[j] == Permission::NodeGet(NodeGet::ListAllAgentUuid);
        let l = token.token_limit@[k];
        assert(is_list_permission(l.permissions@[j]));
        assert(limit_lists(l));
        assert(limit_has_agent(l, u));
        assert(lists_agent_before(token, n, u));
    }
    if operates_agent(token, u) {
        let k = choose|k: int|
            0 <= k < n && k < token.token_limit@.len() && limit_operates(#[trigger] token.token_limit@[k])
                && limit_has_agent(token.token_limit@[k], u);
        let l = token.token_limit@[k];
        let j = choose|j: int| 0 <= j < l.permissions@.len() && !#[trigger] is_list_permission(l.permissions@[j]);
        let i = choose|i: int| 0 <= i < l.scopes@.len() && #[trigger] l.scopes@[i] == Scope::AgentUuid(u);
        assert(token.token_limit@[k].scopes@[i] == Scope::AgentUuid(u));
        assert(token.token_limit@[k].permissions@[j] != Permission::NodeGet(NodeGet::ListAllAgentUuid));
    }
    if exists|k: int, i: int, j: int|
        #![trigger token.token_limit@[k].scopes@[i], token.token_limit@[k].permissions@[j]]
        0 <= k < token.token_limit@.len() && 0 <= i < token.token_limit@[k].scopes@.len() && 0 <= j
            < token.token_limit@[k].permissions@.len() && token.token_limit@[k].scopes@[i] == Scope::AgentUuid(u)
            && token.token_limit@[k].permissions@[j] != Permission::NodeGet(NodeGet::ListAllAgentUuid) {
        let (k, i, j) = choose|k: int, i: int, j: int|
            #![trigger token.token_limit@[k].scopes@[i], token.token_limit@[k].permissions@[j]]
            0 <= k < token.token_limit@.len() && 0 <= i < token.token_limit@[k].scopes@.len() && 0 <= j
                < token.token_limit@[k].permissions@.len() && token.token_limit@[k].scopes@[i] == Scope::AgentUuid(u)
                && token.token_limit@[k].permissions@[j] != Permission::NodeGet(NodeGet::ListAllAgentUuid);
        let l = token.token_limit@[k];
        assert(!is_list_permission(l.permissions@[j]));
        assert(limit_operates(l));
        assert(limit_has_agent(l, u));
        assert(operates_agent_before(token, n, u));
    }
}

} // verus!
