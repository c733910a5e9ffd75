use vstd::prelude::*;
use vstd::string::StringExecFns;
use crate::decimal::{decimal, i64_to_decimal, signed_decimal, u64_to_decimal};
use crate::ids::{format_uuid, hyphenated_uuid_text};

verus! {

/// The JSON reply that names the id of a created or updated record.
pub open spec fn id_reply(id: int) -> Seq<char> {
    "{\"id\":"@ + signed_decimal(id) + "}"@
}

/// The reply after a cron job was created or updated, naming its id.
pub fn crontab_saved_response(id: i64) -> (r: String)
    ensures
        r@ == id_reply(id as int),
{
    let digits = i64_to_decimal(id);
    String::from_str("{\"id\":").concat(digits.as_str()).concat("}")
}

/// The reply after a task result was stored, naming the task id.
pub fn task_result_response(task_id: u64) -> (r: String)
    ensures
        r@ == id_reply(task_id as int),
{
    let digits = u64_to_decimal(task_id);
    String::from_str("{\"id\":").concat(digits.as_str()).concat("}")
}

/// `true` or `false`, as JSON writes a boolean.
pub open spec fn bool_text(b: bool) -> Seq<char> {
    if b {
        "true"@
    } else {
        "false"@
    }
}

/// The reply when no cron job has the requested name.
pub open spec fn crontab_not_found_reply() -> Seq<char> {
    "{\"success\":false,\"message\":\"Crontab not found\"}"@
}

/// The reply to enabling, disabling or toggling a cron job: its new state,
/// or that it was not found.
pub open spec fn enable_state_reply(state: Option<bool>) -> Seq<char> {
    match state {
        Some(b) => "{\"success\":true,\"enabled\":"@ + bool_text(b) + "}"@,
        None => crontab_not_found_reply(),
    }
}

/// The reply to enabling, disabling or toggling a cron job (see
/// `enable_state_reply`).
pub fn enable_state_response(state: Option<bool>) -> (r: String)
    ensures
        r@ == enable_state_reply(state),
{
    match state {
        Some(b) => {
            let word = if b {
                "true"
            } else {
                "false"
            };
            String::from_str("{\"success\":true,\"enabled\":").concat(word).concat("}")
        },
        None => String::from_str("{\"success\":false,\"message\":\"Crontab not found\"}"),
    }
}

/// The reply after static monitoring rows were deleted.
pub open spec fn static_delete_reply(deleted: nat, condition_count: nat) -> Seq<char> {
    "{\"success\":true,\"deleted\":"@ + decimal(deleted) + ",\"condition_count\":"@ + decimal(
        condition_count,
    ) + "}"@
}

/// The reply after static monitoring rows were deleted: how many rows went
/// and how many conditions the request had.
pub fn static_delete_response(deleted: u64, condition_count: usize) -> (r: String)
    ensures
        r@ == static_delete_reply(deleted as nat, condition_count as nat),
{
    let deleted_text = u64_to_decimal(deleted);
    let count_text = u64_to_decimal(condition_count as u64);
    String::from_str("{\"success\":true,\"deleted\":").concat(deleted_text.as_str()).concat(
        ",\"condition_count\":",
    ).concat(count_text.as_str()).concat("}")
}

/// The reply after dynamic monitoring rows of one agent were deleted.
pub open spec fn dynamic_delete_reply(deleted: nat, agent_uuid: u128, before_timestamp: int) -> Seq<char> {
    "{\"success\":true,\"deleted\":"@ + decimal(deleted) + ",\"agent_uuid\":\""@ + hyphenated_uuid_text(
        agent_uuid,
    ) + "\",\"before_timestamp\":"@ + signed_decimal(before_timestamp) + "}"@
}

/// The reply after dynamic monitoring rows of one agent older than
/// `before_timestamp` were deleted.
pub fn dynamic_delete_response(deleted: u64, agent_uuid: u128, before_timestamp: i64) -> (r: String)
    ensures
        r@ == dynamic_delete_reply(deleted as nat, agent_uuid, before_timestamp as int),
{
    let deleted_text = u64_to_decimal(deleted);
    let uuid_text = format_uuid(agent_uuid);
    let ts_text = i64_to_decimal(before_timestamp);
    String::from_str("{\"success\":true,\"deleted\":").concat(deleted_text.as_str()).concat(
        ",\"agent_uuid\":\"",
    ).concat(uuid_text.as_str()).concat("\",\"before_timestamp\":").concat(ts_text.as_str()).concat(
        "}",
    )
}

/// The message when a token lacks `Task::Write` of the task's kind.
pub open spec fn task_write_denied_text(task_name: Seq<char>) -> Seq<char> {
    "Permission Denied: Missing Task Write ("@ + task_name + ") permission for this Agent"@
}

/// The message when a token lacks `Task::Write` of the task's kind.
pub fn task_write_denied_message(task_name: &str) -> (r: String)
    ensures
        r@ == task_write_denied_text(task_name@),
{
    String::from_str("Permission Denied: Missing Task Write (").concat(task_name).concat(
        ") permission for this Agent",
    )
}

} // verus!
