use herdr_coordinator::commands::{finish_verify, run, Reply};
use herdr_coordinator::dispatch::{choose_controller, dispatch_one, reconcile, LEASE_MS};
use herdr_coordinator::json::{string, Json};
use herdr_coordinator::ledger::{judge, Ending, Execution};
use herdr_coordinator::outside::{now, parse_json, utc_ms};
use herdr_coordinator::state::{Env, State};
use herdr_coordinator::textmap::TextMap;
use herdr_coordinator::watch::{apply_status, event_name};

fn json(text: &str) -> Json {
    parse_json(text).unwrap()
}

fn strings(values: &[&str]) -> Vec<String> {
    values.iter().map(|value| value.to_string()).collect()
}

fn surroundings() -> Env {
    Env {
        home: Some("/home/operator".to_string()),
        plugin_state_dir: None,
        plugin_id: None,
        coordinator_home: None,
        state_home: None,
        user: Some("operator".to_string()),
        current_dir: Ok("/work".to_string()),
    }
}

fn go(state: &mut State, args: &[&str]) -> Reply {
    run(state, &strings(args), &surroundings(), false).unwrap()
}

fn new_state() -> State {
    State { dir: "/tmp/demo/state".to_string(), files: TextMap::new() }
}

fn fixture() -> State {
    let mut state = new_state();
    go(&mut state, &["init"]);
    go(
        &mut state,
        &[
            "register",
            "demo",
            "--tab",
            "w1:t1",
            "--commander",
            "demo-cmd",
            "--cwd",
            "/tmp/demo",
        ],
    );
    state
}

fn initialised() -> State {
    let mut state = new_state();
    state.init();
    state
}

fn project_member(state: &State, project: &str, name: &str) -> String {
    string(state.registry().get(project).unwrap(), name)
}

fn execution(ending: Ending, stdout: &str) -> Execution {
    let (exit_code, error) = judge(&ending);
    Execution {
        exit_code,
        stdout: stdout.to_string(),
        stderr: String::new(),
        error,
        started_at: now(),
        finished_at: now(),
        duration_ms: 3,
    }
}

#[test]
fn decision_is_first_class_and_preserves_reported_status() {
    let mut state = fixture();
    go(&mut state, &["report", "demo", "working", "开始实现"]);
    go(
        &mut state,
        &[
            "ask",
            "demo",
            "采用哪种兼容策略？",
            "--option",
            "保持旧格式",
            "--option",
            "升级格式",
        ],
    );
    go(&mut state, &["report", "demo", "done", "实现已完成"]);
    assert_eq!(project_member(&state, "demo", "reported_status"), "done");
    assert_eq!(project_member(&state, "demo", "status"), "need_decision");
    let decision = state.decisions().remove(0);
    assert!(decision.at("options").equals(&json("[\"保持旧格式\", \"升级格式\"]")));
    let id = string(&decision, "id");
    go(&mut state, &["resolve", &id, "保持旧格式"]);
    assert_eq!(project_member(&state, "demo", "status"), "done");
}

#[test]
fn blocked_does_not_create_a_decision() {
    let mut state = fixture();
    go(&mut state, &["set-status", "demo", "blocked", "等待外部服务"]);
    assert!(state.decisions().is_empty());
    assert_eq!(project_member(&state, "demo", "status"), "blocked");
}

#[test]
fn report_verify_accept_has_three_distinct_stages() {
    let mut state = fixture();
    go(
        &mut state,
        &[
            "report",
            "demo",
            "done",
            "实现完成",
            "--confidence",
            "0.91",
            "--evidence",
            "commit:abc123",
        ],
    );
    let claim_id = string(&state.claims()[0], "id");
    assert_eq!(string(&state.claims()[0], "state"), "reported");
    assert!(state
        .refresh_attention()
        .iter()
        .any(|item| string(item, "kind") == "reported_done_unverified"));
    let check = match go(
        &mut state,
        &[
            "verify",
            "demo",
            "--claim",
            &claim_id,
            "--label",
            "unit-tests",
            "--",
            "sh",
            "-c",
            "printf ok",
        ],
    ) {
        Reply::Verify(check) => check,
        _ => panic!("a verification is to be run"),
    };
    assert_eq!(check.argv, strings(&["sh", "-c", "printf ok"]));
    assert_eq!(check.cwd, "/tmp/demo");
    assert_eq!(check.label, "unit-tests");
    assert_eq!(check.claim_id, claim_id);
    let run = execution(Ending::Finished(Some(0)), "ok");
    let reply = finish_verify(&mut state, &check, &run).unwrap();
    assert!(matches!(reply, Reply::Verified { code: 0, .. }));
    assert_eq!(string(&state.claims()[0], "state"), "verified");
    go(&mut state, &["accept", "demo", "--claim", &claim_id, "--note", "验收通过"]);
    assert_eq!(string(&state.claims()[0], "state"), "accepted");
    assert_eq!(project_member(&state, "demo", "claim_state"), "accepted");
}

#[test]
fn failed_verification_returns_the_command_exit_code() {
    let mut state = fixture();
    go(&mut state, &["report", "demo", "done", "声称完成"]);
    let check = match go(&mut state, &["verify", "demo", "--", "sh", "-c", "exit 3"]) {
        Reply::Verify(check) => check,
        _ => panic!("a verification is to be run"),
    };
    assert_eq!(check.argv, strings(&["sh", "-c", "exit 3"]));
    let run = execution(Ending::Finished(Some(3)), "");
    match finish_verify(&mut state, &check, &run).unwrap() {
        Reply::Verified { lines, code } => {
            assert_eq!(
                lines,
                vec![format!(
                    "verification failed: {} (verification, exit=3)",
                    check.claim_id
                )]
            );
            assert_eq!(code, 3);
        }
        _ => panic!("a verification was settled"),
    }
    assert_eq!(string(&state.claims()[0], "state"), "reported");
    let evidence = state.claims()[0].at("evidence").into_items();
    assert_eq!(evidence[0].at("exit_code").as_i64(), Some(3));
}

#[test]
fn force_acceptance_requires_done_and_a_note() {
    let mut state = fixture();
    go(&mut state, &["report", "demo", "working", "仍在开发"]);
    let claim_id = string(&state.claims()[0], "id");
    assert!(run(
        &mut state,
        &strings(&["accept", "demo", "--claim", &claim_id, "--force", "--note", "不应允许"]),
        &surroundings(),
        false,
    )
    .is_err());
    assert_eq!(string(&state.claims()[0], "state"), "reported");
}

#[test]
fn decision_precedes_a_stale_block_in_attention() {
    let mut state = fixture();
    go(
        &mut state,
        &[
            "register",
            "blocked",
            "--tab",
            "w1:t2",
            "--commander",
            "blocked-cmd",
            "--cwd",
            ".",
        ],
    );
    go(&mut state, &["set-status", "blocked", "working", "正在执行"]);
    state.write_json(
        "runtime.json",
        &json(
            "{\"connected\": true, \"projects\": {
                \"demo\": {\"online\": true, \"live_status\": \"idle\", \"live_status_since\": \"2020-01-01 00:00:00\"},
                \"blocked\": {\"online\": true, \"live_status\": \"blocked\", \"live_status_since\": \"2020-01-01 00:00:00\"}
            }}",
        ),
    );
    go(
        &mut state,
        &["ask", "demo", "是否发布？", "--option", "发布", "--option", "暂缓"],
    );
    let attention = state.refresh_attention();
    assert_eq!(string(&attention[0], "kind"), "decision_required");
    assert!(attention.iter().any(|item| string(item, "kind") == "stale_blocked"));
}

#[test]
fn runtime_projection_never_overwrites_business_state() {
    let mut state = initialised();
    state.write_json(
        "fleets.json",
        &json(&format!(
            "{{\"demo\": {{\"commander\": \"demo-cmd\", \"status\": \"done\",
               \"reported_status\": \"done\", \"updated_at\": \"{}\"}}}}",
            now()
        )),
    );
    state.write_runtime(
        &json(
            "{\"version\": \"test\", \"protocol\": 20, \"agents\": [{
                \"name\": \"demo-cmd\", \"pane_id\": \"w1:p1\", \"agent_status\": \"working\"
            }]}",
        ),
        true,
        None,
        "test",
        None,
    );
    assert_eq!(project_member(&state, "demo", "reported_status"), "done");
    let runtime = state.load("runtime.json", Json::empty_object());
    assert_eq!(string(&runtime.at("projects").at("demo"), "live_status"), "working");
}

#[test]
fn atomic_state_initialization_is_idempotent() {
    let mut state = new_state();
    state.init();
    state.init();
    assert!(state.files.has("fleets.json"));
    assert!(state.files.has("claims.json"));
    assert!(state.files.has("attention.json"));
}

#[test]
fn new_inbox_entries_become_durable_deliveries_once() {
    let mut state = initialised();
    state.append_inbox(&json(&format!(
        "{{\"ts\": \"{}\", \"type\": \"status_claimed\", \"project\": \"demo\",
           \"status\": \"done\", \"summary\": \"实现完成\"}}",
        now()
    )));
    let first = reconcile(&mut state).unwrap();
    let second = reconcile(&mut state).unwrap();
    assert_eq!(first.len(), 1);
    assert_eq!(second.len(), 1);
    assert_eq!(string(&first[0], "preferred_role"), "verification");
}

#[test]
fn role_selection_prefers_specialist_then_primary() {
    let controllers = vec![
        json("{\"id\": \"c1\", \"target\": \"w1:p1\", \"role\": \"primary\", \"enabled\": true}"),
        json("{\"id\": \"c2\", \"target\": \"w1:p2\", \"role\": \"research\", \"enabled\": true}"),
    ];
    let runtime = json(
        "{\"agents\": [
            {\"pane_id\": \"w1:p1\", \"agent_status\": \"idle\"},
            {\"pane_id\": \"w1:p2\", \"agent_status\": \"idle\"}
        ]}",
    );
    let delivery = json("{\"preferred_role\": \"research\"}");
    let (controller, _) = choose_controller(&controllers, &runtime, &delivery).unwrap();
    assert_eq!(string(&controllers[controller], "id"), "c2");
}

#[test]
fn attention_is_only_enqueued_on_a_new_transition() {
    let mut state = initialised();
    let item = "\"id\": \"observed_blocked:demo:demo\", \"kind\": \"observed_blocked\",
        \"project\": \"demo\", \"reason\": \"机长受阻\", \"priority\": 82,
        \"action\": \"fleet route demo 请说明原因\"";
    let first = json(&format!("[{{{item}, \"created_at\": \"2026-08-25 10:00:00\"}}]"));
    state.write_json("attention.json", &first);
    assert_eq!(reconcile(&mut state).unwrap().len(), 1);
    assert_eq!(reconcile(&mut state).unwrap().len(), 1);
    state.write_json("attention.json", &json("[]"));
    reconcile(&mut state).unwrap();
    let repeated = json(&format!("[{{{item}, \"created_at\": \"2026-08-25 10:05:00\"}}]"));
    state.write_json("attention.json", &repeated);
    assert_eq!(reconcile(&mut state).unwrap().len(), 2);
}

#[test]
fn an_offline_controller_loses_its_lease_immediately() {
    let mut state = initialised();
    state.write_json(
        "controllers.json",
        &json("[{\"id\": \"c1\", \"target\": \"w1:p1\", \"role\": \"primary\", \"enabled\": true}]"),
    );
    state.write_json(
        "deliveries.json",
        &json(&format!(
            "[{{\"id\": \"d1\", \"source_key\": \"test:1\", \"state\": \"leased\",
                \"priority\": 50, \"preferred_role\": \"primary\",
                \"assigned_controller\": \"c1\", \"lease_expires_at_ms\": {}}}]",
            utc_ms() + LEASE_MS
        )),
    );
    state.write_json("runtime.json", &json("{\"connected\": true, \"agents\": []}"));
    assert!(dispatch_one(&mut state).unwrap().is_none());
    assert_eq!(string(&state.deliveries()[0], "state"), "pending");
    assert!(matches!(state.deliveries()[0].get("assigned_controller"), Some(Json::Null)));
}

#[test]
fn plugin_event_aliases_preserve_underscores_inside_segments() {
    assert_eq!(
        event_name(&json("{\"event\": \"pane_agent_status_changed\"}")),
        "pane.agent_status_changed"
    );
    assert_eq!(
        event_name(&json("{\"event\": \"pane_agent_detected\"}")),
        "pane.agent_detected"
    );
}

#[test]
fn status_events_only_mutate_the_runtime_snapshot() {
    let mut snapshot =
        json("{\"agents\": [{\"pane_id\": \"w1:p1\", \"agent_status\": \"idle\"}]}");
    assert!(apply_status(
        &mut snapshot,
        &json(
            "{\"event\": \"pane.agent_status_changed\",
              \"data\": {\"pane_id\": \"w1:p1\", \"agent_status\": \"working\"}}"
        )
    ));
    let agents = snapshot.at("agents").into_items();
    assert_eq!(string(&agents[0], "agent_status"), "working");
}
