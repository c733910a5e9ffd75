use vstd::prelude::*;
use vstd::string::StringExecFns;
use crate::error::NodegetError;
use crate::permission::{Crontab, Permission, Scope, Task};
use crate::token_auth::{credential_parse_message, parse_credential, split_at_first, TokenOrAuth};

verus! {

/// What an agent-side cron job does.
#[derive(Debug, Clone, PartialEq, Eq)]
pub enum AgentCronType {
    /// Dispatch the task of this name to each agent.
    Task(String),
}

/// What a server-side cron job does.
#[derive(Debug, Clone, PartialEq, Eq)]
pub enum ServerCronType {
    /// Run the JavaScript worker of this name, with these parameters (JSON
    /// text).
    JsWorker(String, String),
}

/// Where a cron job runs.
#[derive(Debug, Clone, PartialEq, Eq)]
pub enum CronType {
    /// On these agents (UUIDs as 128-bit numbers).
    Agent(Vec<u128>, AgentCronType),
    /// On the server.
    Server(ServerCronType),
}

/// What creating a cron job needs: the parsed credential, and the
/// permissions it must hold on every scope.
#[derive(Debug)]
pub struct CrontabWriteRequest {
    pub credential: TokenOrAuth,
    pub scopes: Vec<Scope>,
    pub permissions: Vec<Permission>,
}

/// What `cron::Schedule::from_str` makes of `expression`: a schedule, or the
/// text of its parse error.
pub uninterp spec fn cron_schedule_check(expression: Seq<char>) -> Result<(), Seq<char>>;

/// Parses `expression` with `cron::Schedule::from_str` and keeps only
/// whether it parsed, or the error's text.
#[verifier::external_body]
fn check_cron_expression(expression: &str) -> (r: Result<(), String>)
    ensures
        match cron_schedule_check(expression@) {
            Ok(()) => r is Ok,
            Err(text) => r matches Err(m) && m@ == text,
        },
{
    expression.parse::<cron::Schedule>().map(|_| ()).map_err(|e| e.to_string())
}

/// The message for an agent cron job without agents.
pub open spec fn empty_agent_list_message() -> Seq<char> {
    "Agent list cannot be empty"@
}

/// Checks a request to create a cron job and says what it must be allowed:
/// the expression must parse, the credential must parse, and an agent job
/// must name at least one agent. An agent job needs `Crontab::Write` and
/// `Task::Create` of its task on each of its agents; a server job needs
/// `Crontab::Write` on the global scope.
pub fn prepare_crontab_create(token: &str, cron_expression: &str, cron_type: &CronType) -> (r: Result<CrontabWriteRequest, NodegetError>)
    ensures
        match cron_schedule_check(cron_expression@) {
            Err(text) => r matches Err(NodegetError::ParseError(m)) && m@ == "Invalid cron expression: "@ + text,
            Ok(()) => if !token@.contains(':') && !token@.contains('|') {
                r matches Err(NodegetError::ParseError(m)) && m@ == credential_parse_message()
            } else {
                match cron_type {
                    CronType::Agent(uuids, AgentCronType::Task(task_name)) => if uuids@.len() == 0 {
                        r matches Err(NodegetError::ParseError(m)) && m@ == empty_agent_list_message()
                    } else {
                        r matches Ok(req) && req.scopes@ == uuids@.map_values(|u: u128| Scope::AgentUuid(u))
                            && req.permissions@.len() == 2
                            && req.permissions@[0] == Permission::Crontab(Crontab::Write)
                            && (req.permissions@[1] matches Permission::Task(Task::Create(n)) && n@ == task_name@)
                    },
                    CronType::Server(_) => r matches Ok(req) && req.scopes@ == seq![Scope::Global]
                        && req.permissions@ == seq![Permission::Crontab(Crontab::Write)],
                }
            },
        },
        r matches Ok(req) ==> match req.credential {
            TokenOrAuth::Token(key, secret) => split_at_first(token@, ':', key@, secret@),
            TokenOrAuth::Auth(username, password) => !token@.contains(':') && split_at_first(token@, '|', username@, password@),
        },
{
    if let Err(text) = check_cron_expression(cron_expression) {
        return Err(NodegetError::ParseError(String::from_str("Invalid cron expression: ").concat(text.as_str())));
    }
    let credential = match parse_credential(token) {
        Ok(c) => c,
        Err(e) => return Err(e),
    };
    proof {
        match &credential {
            TokenOrAuth::Token(key, _) => {
                assert(token@[key@.len() as int] == ':');
            },
            TokenOrAuth::Auth(username, _) => {
                assert(token@[username@.len() as int] == '|');
            },
        }
    }
    let mut scopes: Vec<Scope> = Vec::new();
    let mut permissions: Vec<Permission> = Vec::new();
    permissions.push(Permission::Crontab(Crontab::Write));
    match cron_type {
        CronType::Agent(uuids, AgentCronType::Task(task_name)) => {
            if uuids.len() == 0 {
                return Err(NodegetError::ParseError(String::from_str("Agent list cannot be empty")));
            }
            let mut i: usize = 0;
            while i < uuids.len()
                invariant
                    i <= uuids@.len(),
                    scopes@ == uuids@.subrange(0, i as int).map_values(|u: u128| Scope::AgentUuid(u)),
                decreases uuids@.len() - i,
            {
                scopes.push(Scope::AgentUuid(uuids[i]));
                assert(scopes@ =~= uuids@.subrange(0, i + 1).map_values(|u: u128| Scope::AgentUuid(u)));
                i = i + 1;
            }
            assert(uuids@.subrange(0, uuids@.len() as int) =~= uuids@);
            permissions.push(Permission::Task(Task::Create(task_name.clone())));
        },
        CronType::Server(_) => {
            scopes.push(Scope::Global);
            assert(scopes@ =~= seq![Scope::Global]);
            assert(permissions@ =~= seq![Permission::Crontab(Crontab::Write)]);
        },
    }
    Ok(CrontabWriteRequest { credential, scopes, permissions })
}

} // verus!
