use vstd::prelude::*;
use vstd::string::StrSliceExecFns;
use vstd::string::StringExecFns;
use crate::error::NodegetError;
use crate::permission::{check_token_limit, principal_allows, Permission, Principal, Scope};
use crate::text::{trim, trim_str};

verus! {

/// `c` with ASCII capitals turned into small letters.
pub open spec fn ascii_lower(c: char) -> char {
    if 'A' <= c && c <= 'Z' {
        ((c as u32) + 32) as char
    } else {
        c
    }
}

/// `a` and `b` are equal up to ASCII case, as `str::eq_ignore_ascii_case`
/// compares.
pub open spec fn eq_ignore_ascii_case(a: Seq<char>, b: Seq<char>) -> bool {
    a.len() == b.len() && forall|i: int| 0 <= i < a.len() ==> #[trigger] ascii_lower(a[i]) == ascii_lower(b[i])
}

fn ascii_lower_exec(c: char) -> (r: char)
    ensures
        r == ascii_lower(c),
{
    if 'A' <= c && c <= 'Z' {
        let x = ((c as u32) + 32) as u8;
        x as char
    } else {
        c
    }
}

/// Whether `a` equals `b` up to ASCII case.
pub fn str_eq_ignore_ascii_case(a: &str, b: &str) -> (r: bool)
    ensures
        r == eq_ignore_ascii_case(a@, b@),
{
    let n = a.unicode_len();
    if n != b.unicode_len() {
        return false;
    }
    let mut i: usize = 0;
    while i < n
        invariant
            n == a@.len(),
            n == b@.len(),
            i <= n,
            forall|j: int| 0 <= j < i ==> #[trigger] ascii_lower(a@[j]) == ascii_lower(b@[j]),
        decreases n - i,
    {
        if ascii_lower_exec(a.get_char(i)) != ascii_lower_exec(b.get_char(i)) {
            return false;
        }
        i = i + 1;
    }
    true
}

/// `[start, end)` is one of the comma-separated segments of `s`.
pub open spec fn is_segment(s: Seq<char>, start: int, end: int) -> bool {
    &&& 0 <= start <= end <= s.len()
    &&& (start == 0 || s[start - 1] == ',')
    &&& (end == s.len() || s[end] == ',')
    &&& forall|k: int| start <= k < end ==> #[trigger] s[k] != ','
}

/// Some comma-separated segment of `s`, trimmed, is `upgrade` up to case.
pub open spec fn lists_upgrade_token(s: Seq<char>) -> bool {
    exists|a: int, b: int| #[trigger] is_segment(s, a, b) && eq_ignore_ascii_case(trim(s.subrange(a, b)), "upgrade"@)
}

/// The request asks to switch to WebSocket: its `Upgrade` header is
/// `websocket` and its `Connection` header lists `upgrade`, both up to case.
pub open spec fn is_websocket_upgrade_request(upgrade: Option<Seq<char>>, connection: Option<Seq<char>>) -> bool {
    &&& upgrade matches Some(u) && eq_ignore_ascii_case(u, "websocket"@)
    &&& connection matches Some(c) && lists_upgrade_token(c)
}

proof fn lemma_segment_unique(s: Seq<char>, start: int, a: int, b: int, i: int)
    requires
        0 <= start <= i <= s.len(),
        start == 0 || s[start - 1] == ',',
        forall|k: int| start <= k < i ==> #[trigger] s[k] != ',',
        is_segment(s, a, b),
        start <= b <= i,
    ensures
        a == start,
{
    if a < start {
        assert(s[start - 1] != ',');
    } else if a > start {
        assert(s[a - 1] != ',');
    }
}

fn segments_list_upgrade(c: &str) -> (r: bool)
    ensures
        r == lists_upgrade_token(c@),
{
    proof {
        reveal_strlit("upgrade");
    }
    let n = c.unicode_len();
    let mut found = false;
    let mut start: usize = 0;
    let mut i: usize = 0;
    while i < n
        invariant
            n == c@.len(),
            start <= i <= n,
            start == 0 || c@[start - 1] == ',',
            forall|k: int| start <= k < i ==> #[trigger] c@[k] != ',',
            found == exists|a: int, b: int| #[trigger] is_segment(c@, a, b) && b < start && eq_ignore_ascii_case(
                trim(c@.subrange(a, b)),
                "upgrade"@,
            ),
        decreases n - i,
    {
        if c.get_char(i) == ',' {
            let seg = trim_str(c.substring_char(start, i));
            let m = str_eq_ignore_ascii_case(seg, "upgrade");
            let ghost old_start = start as int;
            proof {
                assert(is_segment(c@, start as int, i as int));
            }
            found = found || m;
            start = i + 1;
            assert(found == exists|a: int, b: int| #[trigger] is_segment(c@, a, b) && b < start && eq_ignore_ascii_case(trim(c@.subrange(a, b)), "upgrade"@)) by {
                if exists|a: int, b: int| #[trigger] is_segment(c@, a, b) && b < start && eq_ignore_ascii_case(trim(c@.subrange(a, b)), "upgrade"@) {
                    let (a, b) = choose|a: int, b: int| #[trigger] is_segment(c@, a, b) && b < start && eq_ignore_ascii_case(trim(c@.subrange(a, b)), "upgrade"@);
                    if b >= old_start {
                        lemma_segment_unique(c@, old_start, a, b, i as int);
                    }
                }
            }
        }
        i = i + 1;
    }
    let seg = trim_str(c.substring_char(start, n));
    let m = str_eq_ignore_ascii_case(seg, "upgrade");
    proof {
        assert(is_segment(c@, start as int, n as int));
        if lists_upgrade_token(c@) {
            let (a, b) = choose|a: int, b: int| #[trigger] is_segment(c@, a, b) && eq_ignore_ascii_case(trim(c@.subrange(a, b)), "upgrade"@);
            if b >= start {
                lemma_segment_unique(c@, start as int, a, b, n as int);
            }
        }
    }
    found || m
}

/// Whether a request asks to switch to WebSocket, given the text of its
/// `Upgrade` and `Connection` headers (absent or not text: `None`).
pub fn is_websocket_upgrade(upgrade: Option<&str>, connection: Option<&str>) -> (r: bool)
    ensures
        r == is_websocket_upgrade_request(
            match upgrade { Some(u) => Some(u@), None => None },
            match connection { Some(c) => Some(c@), None => None },
        ),
{
    proof {
        reveal_strlit("websocket");
    }
    let has_upgrade_header = match upgrade {
        Some(u) => str_eq_ignore_ascii_case(u, "websocket"),
        None => false,
    };
    let has_connection_upgrade = match connection {
        Some(c) => segments_list_upgrade(c),
        None => false,
    };
    has_upgrade_header && has_connection_upgrade
}

/// The text for one entry of a batch: its method name, or `<invalid>`.
pub open spec fn batch_entry_label(entry: Option<Seq<char>>) -> Seq<char> {
    match entry {
        Some(name) => name,
        None => "<invalid>"@,
    }
}

/// The entries' texts joined by commas.
pub open spec fn join_batch_labels(entries: Seq<Option<Seq<char>>>) -> Seq<char>
    decreases entries.len(),
{
    if entries.len() == 0 {
        Seq::empty()
    } else if entries.len() == 1 {
        batch_entry_label(entries[0])
    } else {
        join_batch_labels(entries.drop_last()) + ","@ + batch_entry_label(entries.last())
    }
}

/// The method names of a batch as text.
pub open spec fn option_string_views(entries: Seq<Option<String>>) -> Seq<Option<Seq<char>>> {
    entries.map_values(|e: Option<String>| match e { Some(s) => Some(s@), None => None })
}

/// How a batch of calls is named in the timing log: its method names
/// (`<invalid>` for a malformed entry) joined by commas, or `<empty>`.
pub fn batch_methods_label(entries: &Vec<Option<String>>) -> (r: String)
    ensures
        entries@.len() == 0 ==> r@ == "<empty>"@,
        entries@.len() > 0 ==> r@ == join_batch_labels(option_string_views(entries@)),
{
    if entries.len() == 0 {
        return String::from_str("<empty>");
    }
    let ghost views = option_string_views(entries@);
    let mut r = String::new();
    let mut i: usize = 0;
    while i < entries.len()
        invariant
            i <= entries@.len(),
            views == option_string_views(entries@),
            r@ == join_batch_labels(views.subrange(0, i as int)),
        decreases entries@.len() - i,
    {
        proof {
            assert(views.subrange(0, i + 1).drop_last() =~= views.subrange(0, i as int));
            reveal_strlit(",");
            reveal_strlit("<invalid>");
        }
        let label = match &entries[i] {
            Some(name) => name.as_str(),
            None => "<invalid>",
        };
        if i == 0 {
            r.append(label);
            assert(r@ =~= join_batch_labels(views.subrange(0, 1)));
        } else {
            r.append(",");
            r.append(label);
        }
        i = i + 1;
    }
    assert(views.subrange(0, entries@.len() as int) =~= views);
    r
}

/// Passes a request that `principal` may make at `now`, and otherwise
/// refuses it with `denial` as the message.
pub fn require_permission(
    principal: &Principal,
    now: i64,
    scopes: &Vec<Scope>,
    permissions: &Vec<Permission>,
    denial: &str,
) -> (r: Result<(), NodegetError>)
    ensures
        r is Ok <==> principal_allows(*principal, now, scopes@, permissions@),
        r matches Err(e) ==> (e matches NodegetError::PermissionDenied(m) && m@ == denial@),
{
    if check_token_limit(principal, now, scopes, permissions) {
        Ok(())
    } else {
        Err(NodegetError::PermissionDenied(String::from_str(denial)))
    }
}

/// The most rows an SQL query returns.
pub const MAX_SQL_ROWS: usize = 10000;

/// Cuts the rows of an SQL result to the first 10000 and reports how many
/// there were and whether some were cut.
pub fn truncate_sql_rows<T>(rows: &mut Vec<T>) -> (r: (usize, bool))
    ensures
        r.0 == old(rows)@.len(),
        r.1 == (old(rows)@.len() > MAX_SQL_ROWS),
        final(rows)@ == if old(rows)@.len() > MAX_SQL_ROWS {
            old(rows)@.subrange(0, MAX_SQL_ROWS as int)
        } else {
            old(rows)@
        },
{
    let total = rows.len();
    let truncated = total > MAX_SQL_ROWS;
    if truncated {
        rows.truncate(MAX_SQL_ROWS);
    }
    (total, truncated)
}

/// The `params` of an SQL request, by JSON shape: an array of values, null,
/// or anything else.
pub enum SqlParams<T> {
    Array(Vec<T>),
    Null,
    Other,
}

/// The message for SQL parameters that are neither an array nor null.
pub open spec fn sql_params_message() -> Seq<char> {
    "params must be an array or null"@
}

/// The values bound to an SQL statement: the array's values, none when the
/// parameters are null or absent, and `InvalidInput` for any other shape.
pub fn sql_param_values<T>(params: Option<SqlParams<T>>) -> (r: Result<Vec<T>, NodegetError>)
    ensures
        match params {
            Some(SqlParams::Array(v)) => r matches Ok(out) && out@ == v@,
            Some(SqlParams::Null) | None => r matches Ok(out) && out@.len() == 0,
            Some(SqlParams::Other) => r matches Err(NodegetError::InvalidInput(m)) && m@ == sql_params_message(),
        },
{
    match params {
        Some(SqlParams::Array(v)) => Ok(v),
        Some(SqlParams::Null) | None => Ok(Vec::new()),
        Some(SqlParams::Other) => Err(NodegetError::InvalidInput(String::from_str("params must be an array or null"))),
    }
}

} // verus!
