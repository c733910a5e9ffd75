use nodeget::error::NodegetError;
use nodeget::kv_query::{
    check_namespace_key_item, check_namespace_key_request, matching_keys_sorted, plan_multi_value, str_le, NamespaceKeyItem,
};
use nodeget::monitoring_cache::last_record_keys;
use nodeget::monitoring_query::{
    authorize_static_delete, delete_row_limit, extract_limit_and_last, newest_rows, resolve_conditions, scopes_from_conditions, QueryCondition,
    ResolvedCondition,
};
use nodeget::pattern::{key_matches_pattern, validate_key, wildcard_matches_pattern, wildcard_prefix};
use nodeget::permission::{Limit, Permission, Principal, Scope, StaticMonitoring, Token};
use nodeget::records::Metadata;
use nodeget::route_name::normalize_route_name;
use nodeget::text::{contains_char, is_whitespace_char, starts_with_str, str_equal, trim_str};

fn strings(v: &[&str]) -> Vec<String> {
    v.iter().map(|s| s.to_string()).collect()
}

#[test]
fn scopes_collect_agents_once_in_order() {
    let c = vec![
        QueryCondition::Uuid(3),
        QueryCondition::Limit(5),
        QueryCondition::Uuid(1),
        QueryCondition::Uuid(3),
        QueryCondition::TimestampFrom(10),
    ];
    assert_eq!(scopes_from_conditions(&c), vec![Scope::AgentUuid(3), Scope::AgentUuid(1)]);
}

#[test]
fn scopes_default_to_global() {
    assert_eq!(scopes_from_conditions(&vec![]), vec![Scope::Global]);
    assert_eq!(scopes_from_conditions(&vec![QueryCondition::Last, QueryCondition::TimestampTo(9)]), vec![Scope::Global]);
}

#[test]
fn last_limit_wins_and_last_is_found() {
    let c = vec![QueryCondition::Limit(5), QueryCondition::Uuid(1), QueryCondition::Limit(2)];
    assert_eq!(extract_limit_and_last(&c), (Some(2), false));
    let d = vec![QueryCondition::Last, QueryCondition::Limit(7)];
    assert_eq!(extract_limit_and_last(&d), (Some(7), true));
    assert_eq!(extract_limit_and_last(&vec![]), (None, false));
}

#[test]
fn delete_row_limit_cases() {
    assert_eq!(delete_row_limit(&vec![QueryCondition::Last, QueryCondition::Limit(7)]), Some(1));
    assert_eq!(delete_row_limit(&vec![QueryCondition::Limit(7)]), Some(7));
    assert_eq!(delete_row_limit(&vec![QueryCondition::Limit(0)]), Some(0));
    assert_eq!(delete_row_limit(&vec![QueryCondition::Uuid(1)]), None);
}

#[test]
fn conditions_resolve_against_registry() {
    let known = vec![(10u128, 1i16), (20, 2), (10, 9)];
    let c = vec![
        QueryCondition::Uuid(20),
        QueryCondition::TimestampFromTo(1, 5),
        QueryCondition::Limit(3),
        QueryCondition::Uuid(10),
        QueryCondition::TimestampFrom(2),
        QueryCondition::TimestampTo(8),
        QueryCondition::Last,
    ];
    assert_eq!(
        resolve_conditions(&c, &known).unwrap(),
        vec![
            ResolvedCondition::UuidId(2),
            ResolvedCondition::TimestampFromTo(1, 5),
            ResolvedCondition::UuidId(1),
            ResolvedCondition::TimestampFrom(2),
            ResolvedCondition::TimestampTo(8),
        ]
    );
}

#[test]
fn unknown_agent_is_not_found() {
    let known = vec![(1u128, 1i16)];
    let c = vec![
        QueryCondition::Uuid(1),
        QueryCondition::Uuid(0x67e5504410b1426f9247bb680e5fe0c8),
        QueryCondition::Uuid(0xff),
    ];
    match resolve_conditions(&c, &known) {
        Err(NodegetError::NotFound(m)) => assert_eq!(
            m,
            "Agent UUID not found in monitoring registry: 67e55044-10b1-426f-9247-bb680e5fe0c8"
        ),
        other => panic!("unexpected {other:?}"),
    }
}

#[test]
fn last_record_selection_filters_fields() {
    let record = strings(&["uuid", "timestamp", "cpu", "system", "gpu"]);
    let fields = strings(&["gpu", "ram", "cpu", "gpu", "uuid"]);
    assert_eq!(last_record_keys(&record, &fields).unwrap(), strings(&["uuid", "timestamp", "gpu", "cpu"]));
    assert_eq!(last_record_keys(&record, &strings(&["ram"])).unwrap(), strings(&["uuid", "timestamp"]));
}

#[test]
fn last_record_without_identity_gives_nothing() {
    let record = strings(&["timestamp", "cpu"]);
    assert_eq!(last_record_keys(&record, &strings(&["cpu"])), None);
}

#[test]
fn empty_field_list_reads_every_column() {
    let record = strings(&["uuid", "timestamp", "cpu", "system", "gpu"]);
    assert_eq!(last_record_keys(&record, &vec![]).unwrap(), record);
    let partial = strings(&["cpu_usage"]);
    assert_eq!(last_record_keys(&partial, &vec![]).unwrap(), partial);
}

#[test]
fn batch_read_plan_keeps_request_order() {
    let item = |ns: &str, key: &str| NamespaceKeyItem { namespace: ns.to_string(), key: key.to_string() };
    let stores = vec![
        ("conf".to_string(), strings(&["metadata_tags", "other", "metadata_name"])),
        ("empty".to_string(), vec![]),
    ];
    let items = vec![
        item("conf", "other"),
        item("conf", "metadata_*"),
        item("missing", "x_*"),
        item("missing", "exact"),
        item("conf", "a*b"),
        item("empty", "*"),
    ];
    let plan = plan_multi_value(&items, &stores);
    assert_eq!(plan.len(), 6);
    assert_eq!(plan[0], vec![item("conf", "other")]);
    assert_eq!(plan[1], vec![item("conf", "metadata_name"), item("conf", "metadata_tags")]);
    assert_eq!(plan[2], vec![]);
    assert_eq!(plan[3], vec![item("missing", "exact")]);
    assert_eq!(plan[4], vec![item("conf", "a*b")]);
    assert_eq!(plan[5], vec![]);
}

#[test]
fn newest_rows_take_latest_first() {
    let rows = vec![(1i64, 100i64), (2, 300), (3, 200), (4, 50)];
    assert_eq!(newest_rows(&rows, 2), vec![(2, 300), (3, 200)]);
    assert_eq!(newest_rows(&rows, 1), vec![(2, 300)]);
    assert_eq!(newest_rows(&rows, 0), vec![]);
    assert_eq!(newest_rows(&rows, 10), vec![(2, 300), (3, 200), (1, 100), (4, 50)]);
    assert_eq!(newest_rows(&vec![], 3), vec![]);
}

#[test]
fn wildcard_keys_are_sorted() {
    let keys = strings(&["metadata_tags", "other", "metadata_name", "metadata_", "metadata_name"]);
    assert_eq!(
        matching_keys_sorted(&keys, "metadata_"),
        strings(&["metadata_", "metadata_name", "metadata_name", "metadata_tags"])
    );
    assert_eq!(matching_keys_sorted(&keys, ""), strings(&["metadata_", "metadata_name", "metadata_name", "metadata_tags", "other"]));
    assert_eq!(matching_keys_sorted(&keys, "zzz"), Vec::<String>::new());
}

#[test]
fn string_order_matches_std() {
    for (a, b) in [("a", "b"), ("ab", "a"), ("", "x"), ("é", "z"), ("same", "same")] {
        assert_eq!(str_le(a, b), a <= b, "{a} {b}");
    }
}

#[test]
fn batch_read_checks() {
    match check_namespace_key_request(&vec![]) {
        Err(NodegetError::InvalidInput(m)) => assert_eq!(m, "namespace_key cannot be empty"),
        other => panic!("unexpected {other:?}"),
    }
    let item = NamespaceKeyItem { namespace: String::new(), key: "k".to_string() };
    match check_namespace_key_item(&item) {
        Err(NodegetError::InvalidInput(m)) => assert_eq!(m, "namespace cannot be empty"),
        other => panic!("unexpected {other:?}"),
    }
    let good = NamespaceKeyItem { namespace: "n".to_string(), key: "k*".to_string() };
    assert!(check_namespace_key_item(&good).is_ok());
    assert!(check_namespace_key_request(&vec![good]).is_ok());
}

#[test]
fn wildcard_prefix_cases() {
    assert_eq!(wildcard_prefix("metadata_*"), Some("metadata_"));
    assert_eq!(wildcard_prefix("*"), Some(""));
    assert_eq!(wildcard_prefix("abc"), None);
    assert_eq!(wildcard_prefix("a*b"), None);
}

#[test]
fn pattern_matching_cases() {
    assert!(key_matches_pattern("metadata_x", "metadata_*"));
    assert!(key_matches_pattern("x", "x"));
    assert!(!key_matches_pattern("xy", "x"));
    assert!(key_matches_pattern("", "*"));
    assert!(wildcard_matches_pattern("job-1", "job-*"));
    assert!(!wildcard_matches_pattern("task", "job-*"));
}

#[test]
fn keys_with_star_are_refused() {
    assert!(validate_key("plain").is_ok());
    match validate_key("bad*") {
        Err(NodegetError::InvalidInput(m)) => assert_eq!(m, "Key cannot contain '*' character"),
        other => panic!("unexpected {other:?}"),
    }
}

#[test]
fn route_name_is_trimmed() {
    assert_eq!(normalize_route_name(None).unwrap(), None);
    assert_eq!(normalize_route_name(Some("  my.route-1_a \n".to_string())).unwrap(), Some("my.route-1_a".to_string()));
}

#[test]
fn route_name_errors() {
    match normalize_route_name(Some("   ".to_string())) {
        Err(NodegetError::InvalidInput(m)) => assert_eq!(m, "route_name cannot be empty string"),
        other => panic!("unexpected {other:?}"),
    }
    match normalize_route_name(Some("a b".to_string())) {
        Err(NodegetError::InvalidInput(m)) => assert_eq!(m, "route_name can only contain [a-zA-Z0-9._-]"),
        other => panic!("unexpected {other:?}"),
    }
    assert!(normalize_route_name(Some("ünicode".to_string())).is_err());
}

#[test]
fn route_name_normalization_is_idempotent() {
    let once = normalize_route_name(Some("\t route.x ".to_string())).unwrap();
    let twice = normalize_route_name(once.clone()).unwrap();
    assert_eq!(once, twice);
}

#[test]
fn text_helpers_agree_with_std() {
    for s in ["", "  a b  ", "\u{3000}x\u{a0}", "\t\n", "plain"] {
        assert_eq!(trim_str(s), s.trim());
    }
    for c in [' ', '\t', '\u{3000}', '\u{85}', 'a', '\u{200b}'] {
        assert_eq!(is_whitespace_char(c), c.is_whitespace(), "{c:?}");
    }
    assert!(starts_with_str("prefix-rest", "prefix"));
    assert!(!starts_with_str("pre", "prefix"));
    assert!(str_equal("abc", "abc"));
    assert!(!str_equal("abc", "abd"));
    assert!(contains_char("a|b", '|'));
    assert!(!contains_char("ab", ':'));
}

#[test]
fn metadata_falls_back_to_blank() {
    let blank = Metadata::stored_or_blank(42, None);
    assert_eq!(blank, Metadata { agent_uuid: 42, agent_name: String::new(), agent_tags: vec![] });
    let stored = Metadata { agent_uuid: 42, agent_name: "web".to_string(), agent_tags: vec!["prod".to_string()] };
    assert_eq!(Metadata::stored_or_blank(42, Some(stored.clone())), stored);
}

#[test]
fn static_delete_authorization() {
    let t = Token {
        version: 1,
        token_key: "k".to_string(),
        timestamp_from: None,
        timestamp_to: None,
        token_limit: vec![Limit {
            scopes: vec![Scope::AgentUuid(1)],
            permissions: vec![Permission::StaticMonitoring(StaticMonitoring::Delete)],
        }],
        username: None,
    };
    let p = Principal::Holder(t);
    assert!(authorize_static_delete(&p, 0, &vec![QueryCondition::Uuid(1), QueryCondition::Last]).is_ok());
    for c in [vec![QueryCondition::Uuid(1), QueryCondition::Uuid(2)], vec![QueryCondition::Last]] {
        match authorize_static_delete(&p, 0, &c) {
            Err(NodegetError::PermissionDenied(m)) => assert_eq!(
                m,
                "Permission Denied: Missing StaticMonitoring Delete permission for requested scope"
            ),
            other => panic!("unexpected {other:?}"),
        }
    }
    assert!(authorize_static_delete(&Principal::SuperToken, 0, &vec![]).is_ok());
}
