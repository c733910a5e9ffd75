use vstd::prelude::*;
use vstd::string::StringExecFns;
use crate::agent_list::{check_token_window, window_error};
use crate::decimal::{decimal, u64_to_decimal};
use crate::error::NodegetError;
use crate::permission::{Crontab, Permission, Token};

verus! {

/// Some rule of the token holds `Crontab::Write`, whatever its scopes.
pub open spec fn holds_crontab_write(token: Token) -> bool {
    exists|k: int, j: int|
        0 <= k < token.token_limit@.len() && 0 <= j < token.token_limit@[k].permissions@.len()
            && #[trigger] token.token_limit@[k].permissions@[j] == Permission::Crontab(Crontab::Write)
}

/// The message for a token without `Crontab::Write`.
pub open spec fn crontab_write_denied_message() -> Seq<char> {
    "Permission Denied: Insufficient Crontab Write permission"@
}

/// Whether a token may toggle a cron job at time `now`: it must be inside
/// its validity window and hold `Crontab::Write` in some rule.
pub fn authorize_crontab_toggle(token: &Token, now: i64) -> (r: Result<(), NodegetError>)
    ensures
        match window_error(*token, now) {
            Some(msg) => r matches Err(NodegetError::PermissionDenied(m)) && m@ == msg,
            None => if holds_crontab_write(*token) {
                r is Ok
            } else {
                r matches Err(NodegetError::PermissionDenied(m)) && m@ == crontab_write_denied_message()
            },
        },
{
    if let Err(e) = check_token_window(token, now) {
        return Err(e);
    }
    let mut k: usize = 0;
    while k < token.token_limit.len()
        invariant
            k <= token.token_limit@.len(),
            window_error(*token, now) is None,
            forall|x: int, y: int|
                0 <= x < k && 0 <= y < token.token_limit@[x].permissions@.len()
                    ==> #[trigger] token.token_limit@[x].permissions@[y] != Permission::Crontab(Crontab::Write),
        decreases token.token_limit@.len() - k,
    {
        let limit = &token.token_limit[k];
        let mut j: usize = 0;
        while j < limit.permissions.len()
            invariant
                k < token.token_limit@.len(),
                window_error(*token, now) is None,
                *limit == token.token_limit@[k as int],
                j <= limit.permissions@.len(),
                forall|x: int, y: int|
                    0 <= x < k && 0 <= y < token.token_limit@[x].permissions@.len()
                        ==> #[trigger] token.token_limit@[x].permissions@[y] != Permission::Crontab(Crontab::Write),
                forall|y: int| 0 <= y < j ==> #[trigger] limit.permissions@[y] != Permission::Crontab(Crontab::Write),
            decreases limit.permissions@.len() - j,
        {
            if let Permission::Crontab(Crontab::Write) = &limit.permissions[j] {
                assert(token.token_limit@[k as int].permissions@[j as int] == Permission::Crontab(Crontab::Write));
                return Ok(());
            }
            j = j + 1;
        }
        k = k + 1;
    }
    Err(NodegetError::PermissionDenied(String::from_str("Permission Denied: Insufficient Crontab Write permission")))
}

/// Which token a deletion request removes.
#[derive(Debug, Clone, PartialEq, Eq)]
pub struct TokenDeletion {
    /// The key of the token to delete.
    pub token_key: String,
    /// Whether the super token asked for it (else a token deletes itself).
    pub by_super_token: bool,
}

/// The message when the super token names no token to delete.
pub open spec fn missing_target_message() -> Seq<char> {
    "Target token key is required for SuperToken deletion"@
}

/// The message when an ordinary token names another token to delete.
pub open spec fn foreign_target_message() -> Seq<char> {
    "Insufficient permission to delete other tokens"@
}

/// Decides which token a deletion request removes: the super token must
/// name one; any other token may only delete itself and must name none.
pub fn choose_token_to_delete(current: &Token, is_super_token: bool, target_token_key: Option<String>) -> (r: Result<TokenDeletion, NodegetError>)
    ensures
        is_super_token ==> match target_token_key {
            Some(key) => r matches Ok(d) && d.token_key@ == key@ && d.by_super_token,
            None => r matches Err(NodegetError::PermissionDenied(m)) && m@ == missing_target_message(),
        },
        !is_super_token ==> match target_token_key {
            Some(_) => r matches Err(NodegetError::PermissionDenied(m)) && m@ == foreign_target_message(),
            None => r matches Ok(d) && d.token_key@ == current.token_key@ && !d.by_super_token,
        },
{
    if is_super_token {
        match target_token_key {
            Some(key) => Ok(TokenDeletion { token_key: key, by_super_token: true }),
            None => Err(NodegetError::PermissionDenied(String::from_str("Target token key is required for SuperToken deletion"))),
        }
    } else {
        match target_token_key {
            Some(_) => Err(NodegetError::PermissionDenied(String::from_str("Insufficient permission to delete other tokens"))),
            None => Ok(TokenDeletion { token_key: String::from_str(current.token_key.as_str()), by_super_token: false }),
        }
    }
}

/// The reply after a token deletion ran and removed `rows` rows.
pub open spec fn token_deletion_reply(deletion: TokenDeletion, rows: nat) -> Seq<char> {
    if deletion.by_super_token {
        if rows > 0 {
            "{\"success\":true,\"message\":\"Token "@ + deletion.token_key@
                + " deleted successfully by SuperToken\",\"rows_affected\":"@ + decimal(rows) + "}"@
        } else {
            "{\"success\":false,\"message\":\"Token "@ + deletion.token_key@ + " not found\"}"@
        }
    } else {
        if rows > 0 {
            "{\"success\":true,\"message\":\"Own token deleted successfully\",\"rows_affected\":"@
                + decimal(rows) + "}"@
        } else {
            "{\"success\":false,\"message\":\"Own token not found\"}"@
        }
    }
}

/// The reply after a token deletion ran and removed `rows_affected` rows:
/// success with the count, or that the token was not found.
pub fn token_deletion_response(deletion: &TokenDeletion, rows_affected: u64) -> (r: String)
    ensures
        r@ == token_deletion_reply(*deletion, rows_affected as nat),
{
    if deletion.by_super_token {
        if rows_affected > 0 {
            let rows = u64_to_decimal(rows_affected);
            String::from_str("{\"success\":true,\"message\":\"Token ").concat(deletion.token_key.as_str()).concat(
                " deleted successfully by SuperToken\",\"rows_affected\":",
            ).concat(rows.as_str()).concat("}")
        } else {
            String::from_str("{\"success\":false,\"message\":\"Token ").concat(deletion.token_key.as_str()).concat(
                " not found\"}",
            )
        }
    } else {
        if rows_affected > 0 {
            let rows = u64_to_decimal(rows_affected);
            String::from_str("{\"success\":true,\"message\":\"Own token deleted successfully\",\"rows_affected\":").concat(
                rows.as_str(),
            ).concat("}")
        } else {
            String::from_str("{\"success\":false,\"message\":\"Own token not found\"}")
        }
    }
}

} // verus!
