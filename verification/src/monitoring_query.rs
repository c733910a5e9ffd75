use vstd::prelude::*;
use vstd::string::StringExecFns;
use crate::error::NodegetError;
use crate::ids::{format_uuid, hyphenated_uuid_text};
use crate::permission::{check_token_limit, principal_allows, Permission, Principal, Scope, StaticMonitoring};

verus! {

broadcast use vstd::seq_lib::group_to_multiset_ensures;

/// One condition of a monitoring-data query.
#[derive(Debug, Clone, Copy, PartialEq, Eq)]
pub enum QueryCondition {
    /// Rows of this agent (UUID as a 128-bit number).
    Uuid(u128),
    /// Rows whose timestamp lies in `[from, to]`.
    TimestampFromTo(i64, i64),
    /// Rows whose timestamp is at least this.
    TimestampFrom(i64),
    /// Rows whose timestamp is at most this.
    TimestampTo(i64),
    /// At most this many of the newest rows.
    Limit(u64),
    /// Only the newest row.
    Last,
}

/// The agent UUIDs named by the conditions, each once, in the order of
/// their first appearance.
pub open spec fn condition_agents(c: Seq<QueryCondition>) -> Seq<u128>
    decreases c.len(),
{
    if c.len() == 0 {
        Seq::empty()
    } else {
        let prev = condition_agents(c.drop_last());
        match c.last() {
            QueryCondition::Uuid(u) => if prev.contains(u) {
                prev
            } else {
                prev.push(u)
            },
            _ => prev,
        }
    }
}

/// The scopes a query needs permission on: one agent scope for each agent it
/// names, or the global scope when it names none.
pub open spec fn scopes_for_conditions(c: Seq<QueryCondition>) -> Seq<Scope> {
    let agents = condition_agents(c);
    if agents.len() == 0 {
        seq![Scope::Global]
    } else {
        agents.map_values(|u: u128| Scope::AgentUuid(u))
    }
}

/// The count of the last `Limit` condition, if there is one.
pub open spec fn last_limit(c: Seq<QueryCondition>) -> Option<u64>
    decreases c.len(),
{
    if c.len() == 0 {
        None
    } else {
        match c.last() {
            QueryCondition::Limit(n) => Some(n),
            _ => last_limit(c.drop_last()),
        }
    }
}

/// Whether some condition is `Last`.
pub open spec fn has_last(c: Seq<QueryCondition>) -> bool {
    exists|i: int| 0 <= i < c.len() && #[trigger] c[i] == QueryCondition::Last
}

/// How many of the newest matching rows a deletion removes: one when `Last`
/// is given, else the last `Limit` count; `None` means every matching row.
pub open spec fn delete_row_limit_of(c: Seq<QueryCondition>) -> Option<u64> {
    if has_last(c) {
        Some(1)
    } else {
        last_limit(c)
    }
}

fn contains_agent(v: &Vec<u128>, x: u128) -> (r: bool)
    ensures
        r == v@.contains(x),
{
    let mut i: usize = 0;
    while i < v.len()
        invariant
            i <= v@.len(),
            forall|j: int| 0 <= j < i ==> v@[j] != x,
        decreases v@.len() - i,
    {
        if v[i] == x {
            return true;
        }
        i = i + 1;
    }
    false
}

/// The scopes a query needs permission on (see `scopes_for_conditions`).
pub fn scopes_from_conditions(conditions: &Vec<QueryCondition>) -> (r: Vec<Scope>)
    ensures
        r@ == scopes_for_conditions(conditions@),
{
    let mut seen: Vec<u128> = Vec::new();
    let mut scopes: Vec<Scope> = Vec::new();
    let mut i: usize = 0;
    while i < conditions.len()
        invariant
            i <= conditions@.len(),
            seen@ == condition_agents(conditions@.subrange(0, i as int)),
            scopes@ == seen@.map_values(|u: u128| Scope::AgentUuid(u)),
        decreases conditions@.len() - i,
    {
        proof {
            assert(conditions@.subrange(0, i + 1).drop_last() =~= conditions@.subrange(0, i as int));
        }
        if let QueryCondition::Uuid(u) = conditions[i] {
            if !contains_agent(&seen, u) {
                seen.push(u);
                scopes.push(Scope::AgentUuid(u));
                assert(scopes@ =~= seen@.map_values(|u: u128| Scope::AgentUuid(u)));
            }
        }
        i = i + 1;
    }
    assert(conditions@.subrange(0, conditions@.len() as int) =~= conditions@);
    if scopes.len() == 0 {
        scopes.push(Scope::Global);
        assert(scopes@ =~= seq![Scope::Global]);
    }
    scopes
}

/// The last `Limit` count and whether `Last` is present.
pub fn extract_limit_and_last(conditions: &Vec<QueryCondition>) -> (r: (Option<u64>, bool))
    ensures
        r.0 == last_limit(conditions@),
        r.1 == has_last(conditions@),
{
    let mut limit_count: Option<u64> = None;
    let mut is_last = false;
    let mut i: usize = 0;
    while i < conditions.len()
        invariant
            i <= conditions@.len(),
            limit_count == last_limit(conditions@.subrange(0, i as int)),
            is_last == has_last(conditions@.subrange(0, i as int)),
        decreases conditions@.len() - i,
    {
        proof {
            assert(conditions@.subrange(0, i + 1).drop_last() =~= conditions@.subrange(0, i as int));
        }
        let ghost prefix = conditions@.subrange(0, i as int);
        let ghost next = conditions@.subrange(0, i + 1);
        match conditions[i] {
            QueryCondition::Limit(n) => {
                limit_count = Some(n);
            },
            QueryCondition::Last => {
                is_last = true;
            },
            _ => {},
        }
        assert(is_last == has_last(next)) by {
            if has_last(next) {
                let j = choose|j: int| 0 <= j < next.len() && #[trigger] next[j] == QueryCondition::Last;
                if j < i {
                    assert(prefix[j] == QueryCondition::Last);
                }
            }
            if has_last(prefix) {
                let j = choose|j: int| 0 <= j < prefix.len() && #[trigger] prefix[j] == QueryCondition::Last;
                assert(next[j] == QueryCondition::Last);
            }
            if conditions@[i as int] == QueryCondition::Last {
                assert(next[i as int] == QueryCondition::Last);
            }
        }
        i = i + 1;
    }
    assert(conditions@.subrange(0, conditions@.len() as int) =~= conditions@);
    (limit_count, is_last)
}

/// How many of the newest matching rows a static-monitoring deletion removes
/// (see `delete_row_limit_of`).
pub fn delete_row_limit(conditions: &Vec<QueryCondition>) -> (r: Option<u64>)
    ensures
        r == delete_row_limit_of(conditions@),
{
    let (limit_count, is_last) = extract_limit_and_last(conditions);
    if is_last || limit_count.is_some() {
        Some(
            if is_last {
                1
            } else {
                match limit_count {
                    Some(n) => n,
                    None => 0,
                }
            },
        )
    } else {
        None
    }
}

proof fn lemma_condition_agents_members(c: Seq<QueryCondition>)
    ensures
        condition_agents(c).no_duplicates(),
        forall|u: u128| #[trigger] condition_agents(c).contains(u) <==> exists|i: int|
            0 <= i < c.len() && c[i] == QueryCondition::Uuid(u),
    decreases c.len(),
{
    if c.len() > 0 {
        let prev = c.drop_last();
        lemma_condition_agents_members(prev);
        let p = condition_agents(prev);
        let a = condition_agents(c);
        assert forall|u: u128| #[trigger] a.contains(u) <==> exists|i: int| 0 <= i < c.len() && c[i] == QueryCondition::Uuid(u) by {
            if a.contains(u) {
                let k = choose|k: int| 0 <= k < a.len() && a[k] == u;
                if k < p.len() {
                    assert(p.contains(u));
                    let i = choose|i: int| 0 <= i < prev.len() && prev[i] == QueryCondition::Uuid(u);
                    assert(c[i] == QueryCondition::Uuid(u));
                } else {
                    assert(c[c.len() - 1] == QueryCondition::Uuid(u));
                }
            }
            if exists|i: int| 0 <= i < c.len() && c[i] == QueryCondition::Uuid(u) {
                let i = choose|i: int| 0 <= i < c.len() && c[i] == QueryCondition::Uuid(u);
                if i < c.len() - 1 {
                    assert(prev[i] == QueryCondition::Uuid(u));
                    assert(p.contains(u));
                    let k = choose|k: int| 0 <= k < p.len() && p[k] == u;
                    assert(a[k] == u);
                } else if !p.contains(u) {
                    assert(a[a.len() - 1] == u);
                }
            }
        }
        if let QueryCondition::Uuid(u) = c.last() {
            if !p.contains(u) {
                assert forall|x: int, y: int| 0 <= x < a.len() && 0 <= y < a.len() && x != y implies a[x] != a[y] by {
                    if x == a.len() - 1 {
                        assert(p[y] == a[y]);
                    } else if y == a.len() - 1 {
                        assert(p[x] == a[x]);
                    }
                }
            }
        }
    }
}

/// The scopes of a query are never empty and name no scope twice; they are
/// the global scope exactly when the query names no agent, and otherwise
/// hold exactly the agents it names.
pub proof fn lemma_scopes_for_conditions(c: Seq<QueryCondition>)
    ensures
        scopes_for_conditions(c).len() > 0,
        scopes_for_conditions(c).no_duplicates(),
        scopes_for_conditions(c) == seq![Scope::Global] <==> forall|i: int| 0 <= i < c.len() ==> !(#[trigger] c[i] is Uuid),
        forall|u: u128| #[trigger] scopes_for_conditions(c).contains(Scope::AgentUuid(u)) <==> exists|i: int|
            0 <= i < c.len() && c[i] == QueryCondition::Uuid(u),
{
    lemma_condition_agents_members(c);
    let a = condition_agents(c);
    let s = scopes_for_conditions(c);
    if a.len() == 0 {
        assert forall|i: int| 0 <= i < c.len() implies !(#[trigger] c[i] is Uuid) by {
            if c[i] is Uuid {
                let u = c[i]->Uuid_0;
                assert(c[i] == QueryCondition::Uuid(u));
                assert(a.contains(u));
            }
        }
    } else {
        assert(a.contains(a[0]));
        let i = choose|i: int| 0 <= i < c.len() && c[i] == QueryCondition::Uuid(a[0]);
        assert(c[i] is Uuid);
        assert(s[0] == Scope::AgentUuid(a[0]));
        assert(s != seq![Scope::Global]) by {
            if s == seq![Scope::Global] {
                assert(s[0] == Scope::Global);
            }
        }
        assert forall|u: u128| #[trigger] s.contains(Scope::AgentUuid(u)) <==> a.contains(u) by {
            if s.contains(Scope::AgentUuid(u)) {
                let k = choose|k: int| 0 <= k < s.len() && s[k] == Scope::AgentUuid(u);
                assert(a[k] == u);
            }
            if a.contains(u) {
                let k = choose|k: int| 0 <= k < a.len() && a[k] == u;
                assert(s[k] == Scope::AgentUuid(u));
            }
        }
        assert forall|x: int, y: int| 0 <= x < s.len() && 0 <= y < s.len() && x != y implies s[x] != s[y] by {
            assert(a[x] != a[y]);
        }
    }
}

/// A row condition after agent UUIDs were replaced by their registry ids.
#[derive(Debug, Clone, Copy, PartialEq, Eq)]
pub enum ResolvedCondition {
    /// Rows of the agent with this registry id.
    UuidId(i16),
    /// Rows whose timestamp lies in `[from, to]`.
    TimestampFromTo(i64, i64),
    /// Rows whose timestamp is at least this.
    TimestampFrom(i64),
    /// Rows whose timestamp is at most this.
    TimestampTo(i64),
}

/// The registry id of agent `u`: that of the first entry for `u` in
/// `known`, if there is one.
pub open spec fn registry_id(known: Seq<(u128, i16)>, u: u128) -> Option<i16>
    decreases known.len(),
{
    if known.len() == 0 {
        None
    } else {
        match registry_id(known.drop_last(), u) {
            Some(id) => Some(id),
            None => if known.last().0 == u {
                Some(known.last().1)
            } else {
                None
            },
        }
    }
}

/// The row conditions of a query, in order, with each agent replaced by its
/// registry id and `Limit`/`Last` left out; or the first agent that the
/// registry does not know.
pub open spec fn resolve_spec(c: Seq<QueryCondition>, known: Seq<(u128, i16)>) -> Result<
    Seq<ResolvedCondition>,
    u128,
>
    decreases c.len(),
{
    if c.len() == 0 {
        Ok(Seq::empty())
    } else {
        match resolve_spec(c.drop_last(), known) {
            Err(u) => Err(u),
            Ok(prev) => match c.last() {
                QueryCondition::Uuid(u) => match registry_id(known, u) {
                    Some(id) => Ok(prev.push(ResolvedCondition::UuidId(id))),
                    None => Err(u),
                },
                QueryCondition::TimestampFromTo(a, b) => Ok(prev.push(ResolvedCondition::TimestampFromTo(a, b))),
                QueryCondition::TimestampFrom(a) => Ok(prev.push(ResolvedCondition::TimestampFrom(a))),
                QueryCondition::TimestampTo(b) => Ok(prev.push(ResolvedCondition::TimestampTo(b))),
                QueryCondition::Limit(_) => Ok(prev),
                QueryCondition::Last => Ok(prev),
            },
        }
    }
}

/// The message for an agent that the monitoring registry does not know.
pub open spec fn unknown_agent_message(u: u128) -> Seq<char> {
    "Agent UUID not found in monitoring registry: "@ + hyphenated_uuid_text(u)
}

fn lookup_registry(known: &Vec<(u128, i16)>, u: u128) -> (r: Option<i16>)
    ensures
        r == registry_id(known@, u),
{
    let mut found: Option<i16> = None;
    let mut j: usize = 0;
    while j < known.len()
        invariant
            j <= known@.len(),
            found == registry_id(known@.subrange(0, j as int), u),
        decreases known@.len() - j,
    {
        proof {
            assert(known@.subrange(0, j + 1).drop_last() =~= known@.subrange(0, j as int));
        }
        if found.is_none() && known[j].0 == u {
            found = Some(known[j].1);
        }
        j = j + 1;
    }
    assert(known@.subrange(0, known@.len() as int) =~= known@);
    found
}

/// Replaces each agent of the conditions by its id in `known` (the
/// monitoring registry's entries), keeps the timestamp bounds in order and
/// drops `Limit`/`Last`; fails with `NotFound` on the first agent that
/// `known` lacks.
pub fn resolve_conditions(conditions: &Vec<QueryCondition>, known: &Vec<(u128, i16)>) -> (r: Result<
    Vec<ResolvedCondition>,
    NodegetError,
>)
    ensures
        match resolve_spec(conditions@, known@) {
            Ok(s) => r matches Ok(v) && v@ == s,
            Err(u) => r matches Err(NodegetError::NotFound(m)) && m@ == unknown_agent_message(u),
        },
{
    let mut resolved: Vec<ResolvedCondition> = Vec::new();
    let mut i: usize = 0;
    while i < conditions.len()
        invariant
            i <= conditions@.len(),
            resolve_spec(conditions@.subrange(0, i as int), known@) == Ok::<Seq<ResolvedCondition>, u128>(resolved@),
        decreases conditions@.len() - i,
    {
        proof {
            assert(conditions@.subrange(0, i + 1).drop_last() =~= conditions@.subrange(0, i as int));
        }
        match conditions[i] {
            QueryCondition::Uuid(u) => {
                match lookup_registry(known, u) {
                    Some(id) => resolved.push(ResolvedCondition::UuidId(id)),
                    None => {
                        proof {
                            lemma_resolve_error_persists(conditions@, known@, (i + 1) as int);
                        }
                        let text = format_uuid(u);
                        return Err(
                            NodegetError::NotFound(
                                String::from_str("Agent UUID not found in monitoring registry: ").concat(
                                    text.as_str(),
                                ),
                            ),
                        );
                    },
                }
            },
            QueryCondition::TimestampFromTo(a, b) => resolved.push(ResolvedCondition::TimestampFromTo(a, b)),
            QueryCondition::TimestampFrom(a) => resolved.push(ResolvedCondition::TimestampFrom(a)),
            QueryCondition::TimestampTo(b) => resolved.push(ResolvedCondition::TimestampTo(b)),
            _ => {},
        }
        i = i + 1;
    }
    assert(conditions@.subrange(0, conditions@.len() as int) =~= conditions@);
    Ok(resolved)
}

proof fn lemma_resolve_error_persists(c: Seq<QueryCondition>, known: Seq<(u128, i16)>, k: int)
    requires
        0 <= k <= c.len(),
        resolve_spec(c.subrange(0, k), known) is Err,
    ensures
        resolve_spec(c, known) == resolve_spec(c.subrange(0, k), known),
    decreases c.len() - k,
{
    if k < c.len() {
        assert(c.subrange(0, k + 1).drop_last() =~= c.subrange(0, k));
        lemma_resolve_error_persists(c, known, k + 1);
    } else {
        assert(c.subrange(0, k) =~= c);
    }
}

/// Rows `(id, timestamp)` are ordered newest first.
pub open spec fn newest_first(rows: Seq<(i64, i64)>) -> bool {
    forall|a: int, b: int| 0 <= a < b < rows.len() ==> #[trigger] rows[a].1 >= #[trigger] rows[b].1
}

/// How many rows a deletion of the `limit` newest rows takes out of `n`.
pub open spec fn rows_taken(limit: u64, n: nat) -> int {
    if limit < n {
        limit as int
    } else {
        n as int
    }
}

/// The rows a `Limit`/`Last` deletion removes: the `limit` newest of the
/// matching rows `(id, timestamp)`, newest first. Rows with equal timestamps
/// may come in either order, as the database's ordering by timestamp leaves
/// them.
pub fn newest_rows(rows: &Vec<(i64, i64)>, limit: u64) -> (r: Vec<(i64, i64)>)
    ensures
        exists|sorted: Seq<(i64, i64)>|
            #[trigger] sorted.to_multiset() == rows@.to_multiset() && newest_first(sorted) && r@ == sorted.take(
                rows_taken(limit, rows@.len()),
            ),
{
    let mut sorted: Vec<(i64, i64)> = Vec::new();
    let mut i: usize = 0;
    while i < rows.len()
        invariant
            i <= rows@.len(),
            newest_first(sorted@),
            sorted@.to_multiset() == rows@.subrange(0, i as int).to_multiset(),
        decreases rows@.len() - i,
    {
        let x = rows[i];
        proof {
            assert(rows@.subrange(0, i + 1) =~= rows@.subrange(0, i as int).push(x));
        }
        let ghost old_rows = sorted@;
        let mut p: usize = 0;
        while p < sorted.len() && sorted[p].1 >= x.1
            invariant
                p <= sorted@.len(),
                old_rows == sorted@,
                forall|j: int| 0 <= j < p ==> #[trigger] old_rows[j].1 >= x.1,
            decreases sorted@.len() - p,
        {
            p = p + 1;
        }
        sorted.insert(p, x);
        proof {
            let nv = sorted@;
            assert(nv =~= old_rows.insert(p as int, x));
            assert forall|a: int, b: int| 0 <= a < b < nv.len() implies #[trigger] nv[a].1 >= #[trigger] nv[b].1 by {
                if b < p {
                    assert(nv[a] == old_rows[a]);
                    assert(nv[b] == old_rows[b]);
                } else if a < p && b == p {
                    assert(nv[a] == old_rows[a]);
                } else if a < p && b > p {
                    assert(nv[a] == old_rows[a]);
                    assert(nv[b] == old_rows[b - 1]);
                } else if a == p {
                    assert(nv[b] == old_rows[b - 1]);
                    assert(old_rows[p as int].1 < x.1);
                } else {
                    assert(nv[a] == old_rows[a - 1]);
                    assert(nv[b] == old_rows[b - 1]);
                }
            }
            vstd::seq_lib::to_multiset_insert(old_rows, p as int, x);
        }
        i = i + 1;
    }
    assert(rows@.subrange(0, rows@.len() as int) =~= rows@);
    let ghost full = sorted@;
    assert(full.len() == rows@.len()) by {
        assert(full.to_multiset().len() == full.len());
        assert(rows@.to_multiset().len() == rows@.len());
    }
    let n = sorted.len();
    let k: usize = if (limit as u128) < (n as u128) {
        limit as usize
    } else {
        n
    };
    sorted.truncate(k);
    assert(sorted@ =~= full.take(rows_taken(limit, rows@.len())));
    assert(full.to_multiset() == rows@.to_multiset() && newest_first(full));
    sorted
}

/// The message when a token may not delete the static monitoring rows a
/// query names.
pub open spec fn static_delete_denied_message() -> Seq<char> {
    "Permission Denied: Missing StaticMonitoring Delete permission for requested scope"@
}

/// Whether `principal` may delete the static monitoring rows of a query: it
/// needs `StaticMonitoring::Delete` on every scope the query names (see
/// `scopes_for_conditions`); otherwise the request is refused.
pub fn authorize_static_delete(principal: &Principal, now: i64, conditions: &Vec<QueryCondition>) -> (r: Result<
    (),
    NodegetError,
>)
    ensures
        principal_allows(
            *principal,
            now,
            scopes_for_conditions(conditions@),
            seq![Permission::StaticMonitoring(StaticMonitoring::Delete)],
        ) ==> r is Ok,
        !principal_allows(
            *principal,
            now,
            scopes_for_conditions(conditions@),
            seq![Permission::StaticMonitoring(StaticMonitoring::Delete)],
        ) ==> (r matches Err(NodegetError::PermissionDenied(m)) && m@ == static_delete_denied_message()),
{
    let scopes = scopes_from_conditions(conditions);
    let permissions = vec![Permission::StaticMonitoring(StaticMonitoring::Delete)];
    assert(permissions@ =~= seq![Permission::StaticMonitoring(StaticMonitoring::Delete)]);
    if check_token_limit(principal, now, &scopes, &permissions) {
        Ok(())
    } else {
        Err(
            NodegetError::PermissionDenied(
                String::from_str("Permission Denied: Missing StaticMonitoring Delete permission for requested scope"),
            ),
        )
    }
}

} // verus!
