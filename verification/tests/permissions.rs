use nodeget::agent_list::{
    check_token_window, resolve_list_agent_uuid_permission, select_agent_uuids, AgentUuidListPermission,
};
use nodeget::error::NodegetError;
use nodeget::kv_auth::{
    check_kv_create_permission, check_kv_delete_permission, check_kv_list_keys_permission,
    check_kv_read_permission, check_kv_write_permission,
};
use nodeget::permission::{
    check_token_limit, permission_matches, token_grants, Crontab, CrontabResult, DynamicMonitoring, Kv, Limit,
    NodeGet, Permission, Principal, Scope, StaticMonitoring, Task, Token,
};
use nodeget::rpc_support::{
    batch_methods_label, is_websocket_upgrade, require_permission, sql_param_values, str_eq_ignore_ascii_case,
    truncate_sql_rows, SqlParams, MAX_SQL_ROWS,
};
use nodeget::token_admin::{authorize_crontab_toggle, choose_token_to_delete, token_deletion_response, TokenDeletion};

fn token(limits: Vec<Limit>) -> Token {
    Token {
        version: 1,
        token_key: "tk".to_string(),
        timestamp_from: None,
        timestamp_to: None,
        token_limit: limits,
        username: None,
    }
}

fn windowed(from: Option<i64>, to: Option<i64>, limits: Vec<Limit>) -> Token {
    Token { timestamp_from: from, timestamp_to: to, ..token(limits) }
}

fn kv_read(p: &str) -> Permission {
    Permission::Kv(Kv::Read(p.to_string()))
}

fn ns(name: &str) -> Scope {
    Scope::KvNamespace(name.to_string())
}

#[test]
fn permission_matches_itself_and_patterns() {
    assert!(permission_matches(&kv_read("a"), &kv_read("a")));
    assert!(permission_matches(&kv_read("metadata_*"), &kv_read("metadata_name")));
    assert!(permission_matches(&kv_read("*"), &kv_read("anything")));
    assert!(!permission_matches(&kv_read("metadata_*"), &kv_read("other")));
    assert!(!permission_matches(&kv_read("a*b"), &kv_read("a*bc")));
    assert!(!permission_matches(&kv_read("*"), &Permission::Kv(Kv::Write("x".to_string()))));
    assert!(permission_matches(
        &Permission::CrontabResult(CrontabResult::Read("job_*".to_string())),
        &Permission::CrontabResult(CrontabResult::Read("job_1".to_string()))
    ));
    assert!(!permission_matches(
        &Permission::Task(Task::Create("ping*".to_string())),
        &Permission::Task(Task::Create("ping".to_string()))
    ));
    assert!(permission_matches(&Permission::Crontab(Crontab::Write), &Permission::Crontab(Crontab::Write)));
}

#[test]
fn super_token_may_do_anything() {
    let scopes = vec![Scope::AgentUuid(7), ns("x")];
    let perms = vec![Permission::NodeGet(NodeGet::ExecSql), kv_read("k")];
    assert!(check_token_limit(&Principal::SuperToken, 0, &scopes, &perms));
}

#[test]
fn global_scope_covers_every_scope() {
    let t = token(vec![Limit { scopes: vec![Scope::Global], permissions: vec![Permission::StaticMonitoring(StaticMonitoring::Delete)] }]);
    let scopes = vec![Scope::AgentUuid(1), Scope::AgentUuid(2), Scope::Global];
    let perms = vec![Permission::StaticMonitoring(StaticMonitoring::Delete)];
    assert!(token_grants(&t, 0, &scopes, &perms));
    assert!(!token_grants(&t, 0, &scopes, &vec![Permission::DynamicMonitoring(DynamicMonitoring::Delete)]));
}

#[test]
fn agent_scope_covers_only_itself() {
    let t = token(vec![Limit { scopes: vec![Scope::AgentUuid(1)], permissions: vec![Permission::Crontab(Crontab::Write)] }]);
    let perms = vec![Permission::Crontab(Crontab::Write)];
    assert!(token_grants(&t, 0, &vec![Scope::AgentUuid(1)], &perms));
    assert!(!token_grants(&t, 0, &vec![Scope::AgentUuid(2)], &perms));
    assert!(!token_grants(&t, 0, &vec![Scope::Global], &perms));
    assert!(!token_grants(&t, 0, &vec![Scope::AgentUuid(1), Scope::AgentUuid(2)], &perms));
}

#[test]
fn each_pair_needs_one_rule() {
    let t = token(vec![
        Limit { scopes: vec![Scope::AgentUuid(1)], permissions: vec![Permission::Crontab(Crontab::Write)] },
        Limit { scopes: vec![Scope::AgentUuid(2)], permissions: vec![Permission::Task(Task::Create("ping".to_string()))] },
    ]);
    let scopes = vec![Scope::AgentUuid(1), Scope::AgentUuid(2)];
    assert!(!token_grants(&t, 0, &scopes, &vec![Permission::Crontab(Crontab::Write)]));
    assert!(token_grants(&t, 0, &vec![Scope::AgentUuid(2)], &vec![Permission::Task(Task::Create("ping".to_string()))]));
}

#[test]
fn empty_request_is_granted_in_window() {
    let t = token(vec![]);
    assert!(token_grants(&t, 5, &vec![], &vec![kv_read("k")]));
    assert!(token_grants(&t, 5, &vec![Scope::Global], &vec![]));
}

#[test]
fn validity_window_is_inclusive() {
    let t = windowed(Some(100), Some(200), vec![Limit { scopes: vec![Scope::Global], permissions: vec![kv_read("*")] }]);
    let s = vec![Scope::Global];
    let p = vec![kv_read("x")];
    assert!(!token_grants(&t, 99, &s, &p));
    assert!(token_grants(&t, 100, &s, &p));
    assert!(token_grants(&t, 200, &s, &p));
    assert!(!token_grants(&t, 201, &s, &p));
}

#[test]
fn token_window_errors() {
    let t = windowed(Some(100), Some(200), vec![]);
    match check_token_window(&t, 50) {
        Err(NodegetError::PermissionDenied(m)) => assert_eq!(m, "Token is not yet valid"),
        other => panic!("unexpected {other:?}"),
    }
    match check_token_window(&t, 250) {
        Err(NodegetError::PermissionDenied(m)) => assert_eq!(m, "Token has expired"),
        other => panic!("unexpected {other:?}"),
    }
    assert!(check_token_window(&t, 150).is_ok());
}

#[test]
fn kv_read_by_pattern() {
    let p = Principal::Holder(token(vec![Limit { scopes: vec![ns("conf")], permissions: vec![kv_read("metadata_*")] }]));
    assert!(check_kv_read_permission(&p, 0, "conf", "metadata_name").is_ok());
    match check_kv_read_permission(&p, 0, "conf", "secret") {
        Err(NodegetError::PermissionDenied(m)) => {
            assert_eq!(m, "No read permission for key 'secret' in namespace 'conf'")
        }
        other => panic!("unexpected {other:?}"),
    }
    match check_kv_read_permission(&p, 0, "other", "metadata_name") {
        Err(NodegetError::PermissionDenied(m)) => {
            assert_eq!(m, "No read permission for key 'metadata_name' in namespace 'other'")
        }
        other => panic!("unexpected {other:?}"),
    }
}

#[test]
fn kv_key_with_wildcard_is_invalid_input() {
    match check_kv_write_permission(&Principal::SuperToken, 0, "ns", "a*") {
        Err(NodegetError::InvalidInput(m)) => assert_eq!(m, "Key cannot contain '*' character"),
        other => panic!("unexpected {other:?}"),
    }
}

#[test]
fn kv_star_rule_grants_every_key() {
    let p = Principal::Holder(token(vec![Limit {
        scopes: vec![Scope::Global],
        permissions: vec![Permission::Kv(Kv::Delete("*".to_string()))],
    }]));
    for key in ["a", "b_c", "", "long.key"] {
        assert!(check_kv_delete_permission(&p, 0, "any", key).is_ok());
    }
    match check_kv_write_permission(&p, 0, "any", "a") {
        Err(NodegetError::PermissionDenied(m)) => assert_eq!(m, "No write permission for key 'a' in namespace 'any'"),
        other => panic!("unexpected {other:?}"),
    }
}

#[test]
fn kv_access_needs_validity_window() {
    let early = Principal::Holder(windowed(Some(100), None, vec![Limit { scopes: vec![ns("n")], permissions: vec![kv_read("k*")] }]));
    assert!(check_kv_read_permission(&early, 100, "n", "key").is_ok());
    match check_kv_read_permission(&early, 0, "n", "key") {
        Err(NodegetError::PermissionDenied(m)) => assert_eq!(m, "No read permission for key 'key' in namespace 'n'"),
        other => panic!("unexpected {other:?}"),
    }
    let expired = Principal::Holder(windowed(None, Some(10), vec![Limit {
        scopes: vec![Scope::Global],
        permissions: vec![Permission::Kv(Kv::Delete("pre*".to_string())), Permission::Kv(Kv::Write("*".to_string()))],
    }]));
    assert!(check_kv_delete_permission(&expired, 10, "n", "pre_x").is_ok());
    match check_kv_delete_permission(&expired, 11, "n", "pre_x") {
        Err(NodegetError::PermissionDenied(m)) => assert_eq!(m, "No delete permission for key 'pre_x' in namespace 'n'"),
        other => panic!("unexpected {other:?}"),
    }
    assert!(check_kv_write_permission(&expired, 11, "n", "any").is_err());
}

#[test]
fn kv_list_keys_needs_list_permission_in_window() {
    let t = windowed(None, Some(10), vec![Limit { scopes: vec![ns("n")], permissions: vec![Permission::Kv(Kv::ListAllKeys)] }]);
    let p = Principal::Holder(t);
    assert!(check_kv_list_keys_permission(&p, 5, "n").is_ok());
    match check_kv_list_keys_permission(&p, 11, "n") {
        Err(NodegetError::PermissionDenied(m)) => assert_eq!(m, "No permission to list keys in namespace 'n'"),
        other => panic!("unexpected {other:?}"),
    }
    assert!(check_kv_list_keys_permission(&p, 5, "m").is_err());
    assert!(check_kv_list_keys_permission(&Principal::SuperToken, 5, "m").is_ok());
}

#[test]
fn kv_create_only_super_token() {
    assert!(check_kv_create_permission(&Principal::SuperToken).is_ok());
    match check_kv_create_permission(&Principal::Holder(token(vec![]))) {
        Err(NodegetError::PermissionDenied(m)) => assert_eq!(m, "Only SuperToken can create KV namespace"),
        other => panic!("unexpected {other:?}"),
    }
}

#[test]
fn list_permission_global_gives_all() {
    let p = Principal::Holder(token(vec![Limit {
        scopes: vec![Scope::Global],
        permissions: vec![Permission::NodeGet(NodeGet::ListAllAgentUuid)],
    }]));
    assert_eq!(resolve_list_agent_uuid_permission(&p, 0).unwrap(), AgentUuidListPermission::All);
    assert_eq!(resolve_list_agent_uuid_permission(&Principal::SuperToken, 0).unwrap(), AgentUuidListPermission::All);
}

#[test]
fn list_permission_scoped_to_operable_agents() {
    let p = Principal::Holder(token(vec![
        Limit {
            scopes: vec![Scope::AgentUuid(1), Scope::AgentUuid(2), Scope::AgentUuid(3)],
            permissions: vec![Permission::NodeGet(NodeGet::ListAllAgentUuid)],
        },
        Limit { scopes: vec![Scope::AgentUuid(2), Scope::AgentUuid(3), Scope::AgentUuid(4)], permissions: vec![Permission::Crontab(Crontab::Write)] },
    ]));
    match resolve_list_agent_uuid_permission(&p, 0).unwrap() {
        AgentUuidListPermission::Scoped(mut v) => {
            v.sort();
            assert_eq!(v, vec![2, 3]);
        }
        other => panic!("unexpected {other:?}"),
    }
}

#[test]
fn list_permission_denied_without_list_rule() {
    let p = Principal::Holder(token(vec![Limit { scopes: vec![Scope::AgentUuid(1)], permissions: vec![Permission::Crontab(Crontab::Write)] }]));
    match resolve_list_agent_uuid_permission(&p, 0) {
        Err(NodegetError::PermissionDenied(m)) => {
            assert_eq!(m, "Permission Denied: Insufficient NodeGet ListAllAgentUuid permissions")
        }
        other => panic!("unexpected {other:?}"),
    }
    let expired = Principal::Holder(windowed(None, Some(1), vec![]));
    match resolve_list_agent_uuid_permission(&expired, 2) {
        Err(NodegetError::PermissionDenied(m)) => assert_eq!(m, "Token has expired"),
        other => panic!("unexpected {other:?}"),
    }
}

#[test]
fn select_agent_uuids_filters_in_order() {
    let all = vec![5u128, 3, 9, 3, 1];
    assert_eq!(select_agent_uuids(&AgentUuidListPermission::All, &all), all);
    assert_eq!(select_agent_uuids(&AgentUuidListPermission::Scoped(vec![3, 1]), &all), vec![3, 3, 1]);
    assert_eq!(select_agent_uuids(&AgentUuidListPermission::Scoped(vec![]), &all), Vec::<u128>::new());
}

#[test]
fn crontab_toggle_authorization() {
    let with_write = token(vec![Limit { scopes: vec![Scope::AgentUuid(9)], permissions: vec![Permission::Crontab(Crontab::Write)] }]);
    assert!(authorize_crontab_toggle(&with_write, 0).is_ok());
    let without = token(vec![Limit { scopes: vec![Scope::Global], permissions: vec![kv_read("*")] }]);
    match authorize_crontab_toggle(&without, 0) {
        Err(NodegetError::PermissionDenied(m)) => assert_eq!(m, "Permission Denied: Insufficient Crontab Write permission"),
        other => panic!("unexpected {other:?}"),
    }
    let early = windowed(Some(10), None, vec![Limit { scopes: vec![], permissions: vec![Permission::Crontab(Crontab::Write)] }]);
    match authorize_crontab_toggle(&early, 0) {
        Err(NodegetError::PermissionDenied(m)) => assert_eq!(m, "Token is not yet valid"),
        other => panic!("unexpected {other:?}"),
    }
}

#[test]
fn token_deletion_choice() {
    let current = token(vec![]);
    let d = choose_token_to_delete(&current, true, Some("victim".to_string())).unwrap();
    assert_eq!(d, TokenDeletion { token_key: "victim".to_string(), by_super_token: true });
    match choose_token_to_delete(&current, true, None) {
        Err(NodegetError::PermissionDenied(m)) => assert_eq!(m, "Target token key is required for SuperToken deletion"),
        other => panic!("unexpected {other:?}"),
    }
    match choose_token_to_delete(&current, false, Some("x".to_string())) {
        Err(NodegetError::PermissionDenied(m)) => assert_eq!(m, "Insufficient permission to delete other tokens"),
        other => panic!("unexpected {other:?}"),
    }
    let own = choose_token_to_delete(&current, false, None).unwrap();
    assert_eq!(own, TokenDeletion { token_key: "tk".to_string(), by_super_token: false });
}

#[test]
fn token_deletion_replies() {
    let by_super = TokenDeletion { token_key: "abc".to_string(), by_super_token: true };
    assert_eq!(
        token_deletion_response(&by_super, 1),
        "{\"success\":true,\"message\":\"Token abc deleted successfully by SuperToken\",\"rows_affected\":1}"
    );
    assert_eq!(token_deletion_response(&by_super, 0), "{\"success\":false,\"message\":\"Token abc not found\"}");
    let own = TokenDeletion { token_key: "me".to_string(), by_super_token: false };
    assert_eq!(
        token_deletion_response(&own, 2),
        "{\"success\":true,\"message\":\"Own token deleted successfully\",\"rows_affected\":2}"
    );
    assert_eq!(token_deletion_response(&own, 0), "{\"success\":false,\"message\":\"Own token not found\"}");
}

#[test]
fn require_permission_uses_denial_text() {
    let p = Principal::Holder(token(vec![]));
    let scopes = vec![Scope::AgentUuid(1)];
    let perms = vec![Permission::DynamicMonitoring(DynamicMonitoring::Delete)];
    match require_permission(&p, 0, &scopes, &perms, "Permission Denied: Missing DynamicMonitoring Delete permission for this Agent") {
        Err(NodegetError::PermissionDenied(m)) => {
            assert_eq!(m, "Permission Denied: Missing DynamicMonitoring Delete permission for this Agent")
        }
        other => panic!("unexpected {other:?}"),
    }
    assert!(require_permission(&Principal::SuperToken, 0, &scopes, &perms, "no").is_ok());
}

#[test]
fn ascii_case_insensitive_compare() {
    assert!(str_eq_ignore_ascii_case("WebSocket", "websocket"));
    assert!(!str_eq_ignore_ascii_case("websocket", "websockets"));
    assert!(!str_eq_ignore_ascii_case("É", "é"));
}

#[test]
fn websocket_upgrade_detection() {
    assert!(is_websocket_upgrade(Some("websocket"), Some("Upgrade")));
    assert!(is_websocket_upgrade(Some("WebSocket"), Some("keep-alive, Upgrade")));
    assert!(!is_websocket_upgrade(Some("h2c"), Some("Upgrade")));
    assert!(!is_websocket_upgrade(Some("websocket"), Some("keep-alive")));
    assert!(!is_websocket_upgrade(None, Some("Upgrade")));
    assert!(!is_websocket_upgrade(Some("websocket"), None));
}

#[test]
fn batch_label_lists_methods() {
    let label = batch_methods_label(&vec![Some("a.b".to_string()), None, Some("c".to_string())]);
    assert_eq!(label, "a.b,<invalid>,c");
    assert_eq!(batch_methods_label(&vec![Some("only".to_string())]), "only");
    assert_eq!(batch_methods_label(&vec![]), "<empty>");
}

#[test]
fn sql_rows_are_capped() {
    let mut rows: Vec<u32> = (0..10_005).collect();
    assert_eq!(truncate_sql_rows(&mut rows), (10_005, true));
    assert_eq!(rows.len(), MAX_SQL_ROWS);
    assert_eq!(rows[9_999], 9_999);
    let mut few = vec![1, 2, 3];
    assert_eq!(truncate_sql_rows(&mut few), (3, false));
    assert_eq!(few, vec![1, 2, 3]);
}

#[test]
fn extra_rules_never_remove_grants() {
    let base = vec![Limit { scopes: vec![Scope::AgentUuid(1)], permissions: vec![Permission::Crontab(Crontab::Write)] }];
    let narrower = token(base.clone());
    let mut more = base;
    more.push(Limit { scopes: vec![Scope::Global], permissions: vec![kv_read("x")] });
    let wider = token(more);
    let s = vec![Scope::AgentUuid(1)];
    let p = vec![Permission::Crontab(Crontab::Write)];
    assert!(token_grants(&narrower, 0, &s, &p));
    assert!(token_grants(&wider, 0, &s, &p));
}

#[test]
fn smaller_requests_stay_allowed() {
    let t = token(vec![Limit {
        scopes: vec![Scope::AgentUuid(1), Scope::AgentUuid(2)],
        permissions: vec![Permission::Crontab(Crontab::Write), Permission::Task(Task::Create("a".to_string()))],
    }]);
    let full_s = vec![Scope::AgentUuid(1), Scope::AgentUuid(2)];
    let full_p = vec![Permission::Crontab(Crontab::Write), Permission::Task(Task::Create("a".to_string()))];
    assert!(token_grants(&t, 0, &full_s, &full_p));
    assert!(token_grants(&t, 0, &vec![Scope::AgentUuid(2)], &vec![Permission::Task(Task::Create("a".to_string()))]));
}

#[test]
fn sql_params_shapes() {
    assert_eq!(sql_param_values(Some(SqlParams::Array(vec![1, 2]))).unwrap(), vec![1, 2]);
    assert_eq!(sql_param_values::<i32>(Some(SqlParams::Null)).unwrap(), Vec::<i32>::new());
    assert_eq!(sql_param_values::<i32>(None).unwrap(), Vec::<i32>::new());
    match sql_param_values::<i32>(Some(SqlParams::Other)) {
        Err(NodegetError::InvalidInput(m)) => assert_eq!(m, "params must be an array or null"),
        other => panic!("unexpected {other:?}"),
    }
}
