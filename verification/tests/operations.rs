use nodeget::agent_link::{initial_link_state, link_step, unknown_server_error, LinkAction, LinkEvent, LinkState};
use nodeget::clock::{get_local_timestamp_ms, timestamp_ms_from_elapsed};
use nodeget::crontab::{prepare_crontab_create, AgentCronType, CronType, ServerCronType};
use nodeget::error::NodegetError;
use nodeget::js_worker::decode_js_worker_script;
use nodeget::landing::render_root_html;
use nodeget::permission::{Crontab, Permission, Scope, Task};
use nodeget::responses::{
    crontab_saved_response, dynamic_delete_response, enable_state_response, static_delete_response,
    task_result_response, task_write_denied_message,
};
use nodeget::schedule::{
    due_crontab_jobs, due_crontab_jobs_checked, js_worker_run_record, jobs_are_searchable, next_wake_delay_ms,
    next_wake_delay_ms_checked, record_runs, CronJobState,
};
use nodeget::sessions::SessionTable;
use nodeget::token_auth::TokenOrAuth;

const NOW: i64 = 1_700_000_000_000;

fn job(id: i64, expr: &str, last: Option<i64>) -> CronJobState {
    CronJobState { id, cron_expression: expr.to_string(), last_run_time: last }
}

#[test]
fn never_run_job_is_due_when_schedule_fires_within_a_second() {
    let jobs = vec![job(1, "* * * * * *", None), job(2, "0 0 0 1 1 *", None), job(3, "bogus", None)];
    assert_eq!(due_crontab_jobs(&jobs, NOW), vec![1]);
}

#[test]
fn job_due_only_after_its_next_fire() {
    let jobs = vec![job(4, "* * * * * *", Some(NOW)), job(5, "* * * * * *", Some(NOW - 5_000))];
    assert_eq!(due_crontab_jobs(&jobs, NOW), vec![5]);
}

#[test]
fn wake_delay_cases() {
    assert_eq!(next_wake_delay_ms(&vec![], NOW), 60_000);
    assert_eq!(next_wake_delay_ms(&vec![job(1, "* * * * * *", Some(NOW))], NOW), 1_000);
    assert_eq!(next_wake_delay_ms(&vec![job(1, "* * * * * *", Some(NOW - 10_000))], NOW), 0);
    assert_eq!(next_wake_delay_ms(&vec![job(1, "0 0 0 1 1 *", Some(NOW))], NOW), 60_000);
    assert_eq!(next_wake_delay_ms(&vec![job(1, "bogus", Some(NOW))], NOW), 60_000);
}

#[test]
fn wake_delay_takes_earliest_job() {
    let jobs = vec![job(1, "0 0 0 1 1 *", Some(NOW)), job(2, "* * * * * *", Some(NOW)), job(3, "bogus", None)];
    assert_eq!(next_wake_delay_ms(&jobs, NOW), 1_000);
}

#[test]
fn due_job_means_no_delay() {
    let jobs = vec![job(1, "* * * * * *", None)];
    assert_eq!(due_crontab_jobs(&jobs, NOW), vec![1]);
    assert_eq!(next_wake_delay_ms(&jobs, NOW), 0);
}

#[test]
fn js_worker_run_records() {
    let ok = js_worker_run_record("report", Ok(17));
    assert!(ok.success);
    assert_eq!(ok.relative_id, Some(17));
    assert_eq!(ok.message, "已触发 JsWorker 定时任务，脚本名：report，relative_id：17");
    let failed = js_worker_run_record("report", Err("pool closed".to_string()));
    assert!(!failed.success);
    assert_eq!(failed.relative_id, None);
    assert_eq!(failed.message, "触发 JsWorker 定时任务失败，脚本名：report，错误：pool closed");
}

#[test]
fn crontab_create_for_agents() {
    let ct = CronType::Agent(vec![7, 8], AgentCronType::Task("ping".to_string()));
    let req = prepare_crontab_create("key:secret", "0 * * * * *", &ct).unwrap();
    assert_eq!(req.credential, TokenOrAuth::Token("key".to_string(), "secret".to_string()));
    assert_eq!(req.scopes, vec![Scope::AgentUuid(7), Scope::AgentUuid(8)]);
    assert_eq!(
        req.permissions,
        vec![Permission::Crontab(Crontab::Write), Permission::Task(Task::Create("ping".to_string()))]
    );
}

#[test]
fn crontab_create_for_server() {
    let ct = CronType::Server(ServerCronType::JsWorker("w".to_string(), "{\"n\":1}".to_string()));
    let req = prepare_crontab_create("u|p", "0 0 * * * *", &ct).unwrap();
    assert_eq!(req.credential, TokenOrAuth::Auth("u".to_string(), "p".to_string()));
    assert_eq!(req.scopes, vec![Scope::Global]);
    assert_eq!(req.permissions, vec![Permission::Crontab(Crontab::Write)]);
}

#[test]
fn crontab_create_errors() {
    let ct = CronType::Agent(vec![], AgentCronType::Task("ping".to_string()));
    match prepare_crontab_create("k:s", "0 * * * * *", &ct) {
        Err(NodegetError::ParseError(m)) => assert_eq!(m, "Agent list cannot be empty"),
        other => panic!("unexpected {other:?}"),
    }
    match prepare_crontab_create("nocred", "0 * * * * *", &ct) {
        Err(NodegetError::ParseError(m)) => assert!(m.starts_with("Failed to parse token: ")),
        other => panic!("unexpected {other:?}"),
    }
    match prepare_crontab_create("k:s", "not a cron", &ct) {
        Err(NodegetError::ParseError(m)) => {
            assert!(m.starts_with("Invalid cron expression: "));
            assert!(m.len() > "Invalid cron expression: ".len());
        }
        other => panic!("unexpected {other:?}"),
    }
}

#[test]
fn js_worker_script_decodes() {
    assert_eq!(decode_js_worker_script("w", "Y29uc29sZS5sb2coMSk=").unwrap(), "console.log(1)");
}

#[test]
fn js_worker_script_errors() {
    match decode_js_worker_script("  ", "eA==") {
        Err(NodegetError::InvalidInput(m)) => assert_eq!(m, "name cannot be empty"),
        other => panic!("unexpected {other:?}"),
    }
    match decode_js_worker_script("w", " ") {
        Err(NodegetError::InvalidInput(m)) => assert_eq!(m, "js_script_base64 cannot be empty"),
        other => panic!("unexpected {other:?}"),
    }
    match decode_js_worker_script("w", "%%%") {
        Err(NodegetError::ParseError(m)) => assert!(m.starts_with("Invalid js_script_base64: ")),
        other => panic!("unexpected {other:?}"),
    }
    match decode_js_worker_script("w", "/w==") {
        Err(NodegetError::ParseError(m)) => assert!(m.starts_with("js_script_base64 is not valid UTF-8: ")),
        other => panic!("unexpected {other:?}"),
    }
    match decode_js_worker_script("w", "ICAg") {
        Err(NodegetError::InvalidInput(m)) => assert_eq!(m, "Decoded js_script cannot be empty"),
        other => panic!("unexpected {other:?}"),
    }
}

#[test]
fn link_connects_and_registers() {
    let s = initial_link_state();
    assert_eq!(s, LinkState::Connecting { failures: 0 });
    let (s, a) = link_step(s, LinkEvent::Connected { allow_task: Some(true) });
    assert_eq!((s, a), (LinkState::Registering, LinkAction::SendRegistration));
    let (s, a) = link_step(s, LinkEvent::RegistrationSent);
    assert_eq!((s, a), (LinkState::Relaying, LinkAction::AwaitMessages));
    assert_eq!(link_step(s, LinkEvent::UplinkReceived), (LinkState::Relaying, LinkAction::ForwardToServer));
    assert_eq!(link_step(s, LinkEvent::DownlinkReceived), (LinkState::Relaying, LinkAction::BroadcastToLocal));
    assert_eq!(link_step(s, LinkEvent::UplinkLagged(4)), (LinkState::Relaying, LinkAction::AwaitMessages));
    assert_eq!(link_step(s, LinkEvent::Delivered), (LinkState::Relaying, LinkAction::AwaitMessages));
}

#[test]
fn link_without_task_skips_registration() {
    for allow in [None, Some(false)] {
        assert_eq!(
            link_step(LinkState::Connecting { failures: 3 }, LinkEvent::Connected { allow_task: allow }),
            (LinkState::Relaying, LinkAction::AwaitMessages)
        );
    }
}

#[test]
fn link_retry_waits_grow_after_four_failures() {
    let mut s = initial_link_state();
    let mut waits = Vec::new();
    for _ in 0..6 {
        let (next, action) = link_step(s, LinkEvent::ConnectFailed);
        s = next;
        waits.push(action);
    }
    assert_eq!(
        waits,
        vec![
            LinkAction::RetryAfterSecs(2),
            LinkAction::RetryAfterSecs(2),
            LinkAction::RetryAfterSecs(2),
            LinkAction::RetryAfterSecs(2),
            LinkAction::RetryAfterSecs(5),
            LinkAction::RetryAfterSecs(5),
        ]
    );
    assert_eq!(s, LinkState::Connecting { failures: 6 });
    assert_eq!(
        link_step(LinkState::Connecting { failures: u32::MAX }, LinkEvent::ConnectFailed),
        (LinkState::Connecting { failures: u32::MAX }, LinkAction::RetryAfterSecs(5))
    );
}

#[test]
fn link_reconnects_after_break() {
    for e in [LinkEvent::UplinkWriteFailed, LinkEvent::DownlinkFailed, LinkEvent::DownlinkClosed] {
        assert_eq!(link_step(LinkState::Relaying, e), (LinkState::Connecting { failures: 0 }, LinkAction::RetryAfterSecs(3)));
    }
    assert_eq!(
        link_step(LinkState::Registering, LinkEvent::RegistrationFailed),
        (LinkState::Connecting { failures: 0 }, LinkAction::Connect)
    );
}

#[test]
fn link_stops_on_uplink_close() {
    let (s, a) = link_step(LinkState::Relaying, LinkEvent::UplinkClosed);
    assert_eq!((s, a), (LinkState::Stopped, LinkAction::Exit));
    assert_eq!(link_step(s, LinkEvent::Connected { allow_task: Some(true) }), (LinkState::Stopped, LinkAction::Exit));
    assert_eq!(
        link_step(LinkState::Connecting { failures: 1 }, LinkEvent::UplinkClosed),
        (LinkState::Connecting { failures: 1 }, LinkAction::AwaitMessages)
    );
}

#[test]
fn unknown_server_message() {
    assert_eq!(unknown_server_error("main"), "Server not found: main");
}

#[test]
fn sessions_add_send_remove() {
    let mut t: SessionTable<&str> = SessionTable::new();
    assert_eq!(t.sender_for(1).unwrap_err(), (103, "Uuid not found".to_string()));
    t.add_session(1, 100, "first");
    assert_eq!(*t.sender_for(1).unwrap(), "first");
    t.add_session(1, 200, "second");
    t.remove_session(1, 100);
    assert_eq!(*t.sender_for(1).unwrap(), "second");
    t.remove_session(1, 200);
    assert!(t.sender_for(1).is_err());
}

#[test]
fn reply_texts() {
    assert_eq!(crontab_saved_response(-3), "{\"id\":-3}");
    assert_eq!(crontab_saved_response(42), "{\"id\":42}");
    assert_eq!(task_result_response(u64::MAX), format!("{{\"id\":{}}}", u64::MAX));
    assert_eq!(enable_state_response(Some(true)), "{\"success\":true,\"enabled\":true}");
    assert_eq!(enable_state_response(Some(false)), "{\"success\":true,\"enabled\":false}");
    assert_eq!(enable_state_response(None), "{\"success\":false,\"message\":\"Crontab not found\"}");
    assert_eq!(static_delete_response(12, 3), "{\"success\":true,\"deleted\":12,\"condition_count\":3}");
    assert_eq!(
        dynamic_delete_response(5, 0x67e5504410b1426f9247bb680e5fe0c8, -1),
        "{\"success\":true,\"deleted\":5,\"agent_uuid\":\"67e55044-10b1-426f-9247-bb680e5fe0c8\",\"before_timestamp\":-1}"
    );
    assert_eq!(
        task_write_denied_message("ping"),
        "Permission Denied: Missing Task Write (ping) permission for this Agent"
    );
}

#[test]
fn replies_are_json() {
    let v: serde_json::Value = serde_json::from_str(&dynamic_delete_response(0, 1, 1_700_000_000_000)).unwrap();
    assert_eq!(v["agent_uuid"], "00000000-0000-0000-0000-000000000001");
    assert_eq!(v["before_timestamp"], 1_700_000_000_000i64);
    let w: serde_json::Value = serde_json::from_str(&static_delete_response(0, 0)).unwrap();
    assert_eq!(w["deleted"], 0);
}

#[test]
fn landing_page_names_server() {
    let html = render_root_html("uuid-1", "1.2.3");
    assert!(html.starts_with("<!DOCTYPE html>"));
    assert!(html.contains("<p>UUID: <span>uuid-1</span></p>"));
    assert!(html.contains("<p>Version: <span>1.2.3</span></p>"));
    assert!(html.ends_with("</html>"));
}

#[test]
fn timestamps() {
    assert_eq!(timestamp_ms_from_elapsed(None), 0);
    assert_eq!(timestamp_ms_from_elapsed(Some(123)), 123);
    assert_eq!(timestamp_ms_from_elapsed(Some(u64::MAX as u128 + 1)), 0);
    assert!(get_local_timestamp_ms() > 1_600_000_000_000);
}

#[test]
fn recorded_runs_are_not_due_again() {
    let jobs = vec![job(1, "* * * * * *", None), job(2, "0 0 0 1 1 *", Some(NOW - 5_000)), job(3, "* * * * * *", Some(NOW - 2_000))];
    let due = due_crontab_jobs(&jobs, NOW);
    assert_eq!(due, vec![1, 3]);
    let after = record_runs(jobs.clone(), &due, NOW, true);
    assert_eq!(after[0].last_run_time, Some(NOW));
    assert_eq!(after[1], jobs[1]);
    assert_eq!(after[2].last_run_time, Some(NOW));
    assert_eq!(due_crontab_jobs(&after, NOW), Vec::<i64>::new());
}

#[test]
fn failed_store_keeps_last_runs() {
    let jobs = vec![job(1, "* * * * * *", None), job(2, "* * * * * *", Some(NOW - 5_000))];
    let due = due_crontab_jobs(&jobs, NOW);
    assert_eq!(record_runs(jobs.clone(), &due, NOW, false), jobs);
}

#[test]
fn checked_passes_refuse_end_of_time() {
    let jobs = vec![job(1, "* * * * * *", None)];
    assert!(jobs_are_searchable(&jobs, NOW));
    assert_eq!(due_crontab_jobs_checked(&jobs, NOW), Some(vec![1]));
    assert_eq!(next_wake_delay_ms_checked(&jobs, NOW), Some(0));
    // the last instant chrono can represent, in milliseconds
    let end = chrono::DateTime::<chrono::Utc>::MAX_UTC.timestamp_millis();
    let stuck = vec![job(2, "* * * * * *", Some(end))];
    assert!(!jobs_are_searchable(&stuck, NOW));
    assert_eq!(due_crontab_jobs_checked(&stuck, NOW), None);
    assert_eq!(next_wake_delay_ms_checked(&stuck, NOW), None);
    let far = vec![job(3, "* * * * * *", Some(end - 5_000))];
    assert!(jobs_are_searchable(&far, NOW));
}
