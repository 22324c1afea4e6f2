use herdr_coordinator::dispatch::{
    acknowledge, attention_source_key, choose_controller, delivery_from_attention,
    delivery_from_inbox, dispatch_one, inbox_priority, pick_pending, preferred_role, prompt_for,
    reconcile, release, settle,
};
use herdr_coordinator::json::{string, Json};
use herdr_coordinator::outside::{parse_json, utc_ms};
use herdr_coordinator::state::State;
use herdr_coordinator::textmap::TextMap;

fn json(text: &str) -> Json {
    parse_json(text).unwrap()
}

fn ready() -> State {
    let mut state = State { dir: "/srv/state".to_string(), files: TextMap::new() };
    state.init();
    state.write_json(
        "controllers.json",
        &json("[{\"id\": \"c1\", \"target\": \"w1:p1\", \"role\": \"primary\"}]"),
    );
    state.write_json(
        "runtime.json",
        &json("{\"agents\": [{\"pane_id\": \"w1:p1\", \"agent_status\": \"idle\"}]}"),
    );
    state
}

#[test]
fn roles_and_priorities_follow_the_kind() {
    assert_eq!(preferred_role("verification_completed", ""), "verification");
    assert_eq!(preferred_role("status_claimed", "done"), "verification");
    assert_eq!(preferred_role("status_claimed", "idle"), "primary");
    assert_eq!(preferred_role("stale_blocked", "x"), "research");
    let failed = json("{\"exit_code\": 2}");
    let none = json("{}");
    assert_eq!(inbox_priority("decision_requested", "", &none), 100);
    assert_eq!(inbox_priority("verification_completed", "", &failed), 86);
    assert_eq!(inbox_priority("status_claimed", "blocked", &none), 84);
    assert_eq!(inbox_priority("status_claimed", "done", &none), 74);
    assert_eq!(inbox_priority("verification_completed", "", &none), 64);
    assert_eq!(inbox_priority("decision_resolved", "", &none), 44);
    assert_eq!(inbox_priority("status_claimed", "working", &none), 34);
    assert_eq!(inbox_priority("status_claimed", "other", &none), 30);
    assert_eq!(inbox_priority("claim_accepted", "", &none), 24);
}

#[test]
fn only_runtime_attention_has_a_key() {
    let item = json("{\"kind\": \"commander_offline\", \"id\": \"i\", \"created_at\": \"c\"}");
    assert_eq!(attention_source_key(&item), Some("attention:i:c".to_string()));
    assert_eq!(attention_source_key(&json("{\"kind\": \"commander_offline\"}")), None);
    assert_eq!(attention_source_key(&json("{\"kind\": \"decision_required\", \"id\": \"i\"}")), None);
}

#[test]
fn deliveries_start_pending() {
    let entry = json("{\"type\": \"status_claimed\", \"status\": \"done\", \"project\": \"p\", \"summary\": \"s\"}");
    let made = delivery_from_inbox(7, &entry, "tok", "then");
    assert_eq!(string(&made, "id"), "delivery-tok");
    assert_eq!(string(&made, "source_key"), "inbox:7");
    assert_eq!(string(&made, "state"), "pending");
    assert_eq!(string(&made, "created_at"), "then");
    assert!(made.at("priority").equals(&Json::integer(74)));
    let item = json("{\"kind\": \"stale_blocked\", \"reason\": \"r\", \"created_at\": 5}");
    let made = delivery_from_attention(&item, "key", "tok", "then");
    assert_eq!(string(&made, "summary"), "r");
    assert_eq!(string(&made, "status"), "stale_blocked");
    assert!(made.at("priority").equals(&Json::integer(50)));
    assert!(made.at("created_at").equals(&Json::integer(5)));
}

#[test]
fn a_reported_block_needs_no_second_delivery() {
    let mut state = ready();
    state.append_inbox(&json("{\"type\": \"status_claimed\", \"status\": \"blocked\", \"project\": \"p\"}"));
    state.write_json(
        "attention.json",
        &json("[{\"kind\": \"observed_blocked\", \"id\": \"i\", \"project\": \"p\"},
                {\"kind\": \"observed_blocked\", \"id\": \"k\", \"project\": \"q\"}]"),
    );
    let queued = reconcile(&mut state).unwrap();
    assert_eq!(queued.len(), 2);
    assert_eq!(string(&queued[1], "source_key"), "attention:k:");
}

#[test]
fn a_cursor_that_is_no_object_is_refused() {
    let mut state = ready();
    state.write_json("delivery-state.json", &json("[]"));
    assert_eq!(reconcile(&mut state).err().unwrap().message(), "投递记录格式无效");
}

#[test]
fn the_most_urgent_and_latest_is_picked() {
    let waiting = vec![
        json("{\"state\": \"pending\", \"priority\": 5}"),
        json("{\"state\": \"leased\", \"priority\": 9}"),
        json("{\"state\": \"pending\", \"priority\": 5}"),
        json("{\"state\": \"pending\"}"),
    ];
    assert_eq!(pick_pending(&waiting), Some(2));
    assert_eq!(pick_pending(&waiting[1..2]), None);
}

#[test]
fn controllers_are_ranked_by_role_rest_and_name() {
    let runtime = json(
        "{\"agents\": [{\"name\": \"a\", \"agent_status\": \"idle\"},
                       {\"name\": \"b\", \"agent_status\": \"done\"},
                       {\"name\": \"busy\", \"agent_status\": \"working\"},
                       {\"agent_session\": {\"value\": \"s\"}, \"agent_status\": \"idle\"}]}",
    );
    let delivery = json("{\"preferred_role\": \"research\"}");
    let controllers = vec![
        json("{\"id\": \"4\", \"target\": \"busy\", \"role\": \"research\"}"),
        json("{\"id\": \"3\", \"target\": \"a\", \"role\": \"standby\"}"),
        json("{\"id\": \"2\", \"target\": \"b\", \"role\": \"primary\", \"last_assigned_at_ms\": 9}"),
        json("{\"id\": \"1\", \"target\": \"x\", \"agent_session_id\": \"s\", \"role\": \"primary\", \"last_assigned_at_ms\": 8}"),
        json("{\"id\": \"0\", \"target\": \"a\", \"role\": \"research\", \"enabled\": false}"),
    ];
    assert_eq!(choose_controller(&controllers, &runtime, &delivery), Some((3, 3)));
    assert_eq!(choose_controller(&controllers[..3], &runtime, &delivery), Some((2, 1)));
    assert_eq!(choose_controller(&controllers[..1], &runtime, &delivery), None);
}

#[test]
fn a_delivery_is_leased_told_and_acknowledged() {
    let mut state = ready();
    state.append_inbox(&json("{\"type\": \"decision_requested\", \"project\": \"p\", \"summary\": \"s\"}"));
    let lease = dispatch_one(&mut state).unwrap().unwrap();
    assert_eq!(lease.target, "w1:p1");
    assert!(lease.prompt.starts_with(&format!("[Herdr 塔台事件 {}]\n项目：p\n情况：s\n\n", lease.id)));
    assert!(lease.prompt.ends_with(&format!("./fleet delivery-ack {}", lease.id)));
    let leased = &state.deliveries()[0];
    assert_eq!(string(leased, "assigned_controller"), "c1");
    assert_eq!(leased.at("attempts").as_u64(), Some(1));
    assert!(leased.at("lease_expires_at_ms").as_i64().unwrap() > utc_ms() + 290_000);
    assert!(state.controllers()[0].at("last_assigned_at_ms").as_i64().unwrap() > 0);
    assert_eq!(settle(&mut state, &lease, None).unwrap(), lease.id);
    assert!(dispatch_one(&mut state).unwrap().is_none());
    acknowledge(&mut state, &lease.id).unwrap();
    assert_eq!(string(&state.deliveries()[0], "state"), "acknowledged");
    acknowledge(&mut state, &lease.id).unwrap();
    assert_eq!(
        release(&mut state, &lease.id).err().unwrap().message(),
        "已确认的投递不能重新释放"
    );
    assert!(dispatch_one(&mut state).unwrap().is_none());
}

#[test]
fn a_failed_notice_returns_the_delivery() {
    let mut state = ready();
    state.append_inbox(&json("{\"type\": \"decision_requested\"}"));
    let lease = dispatch_one(&mut state).unwrap().unwrap();
    assert_eq!(
        settle(&mut state, &lease, Some("no pane")).err().unwrap().message(),
        "无法唤醒管制员 w1:p1: no pane"
    );
    let item = &state.deliveries()[0];
    assert_eq!(string(item, "state"), "pending");
    assert_eq!(string(item, "last_error"), "no pane");
    assert_eq!(
        acknowledge(&mut state, &lease.id).err().unwrap().message(),
        format!("投递 {} 尚未被管制员领取", lease.id)
    );
    release(&mut state, &lease.id).unwrap();
    assert_eq!(acknowledge(&mut state, "none").err().unwrap().message(), "未知投递: none");
    assert_eq!(release(&mut state, "none").err().unwrap().message(), "未知投递: none");
    state.write_json("deliveries.json", &json("[]"));
    assert_eq!(
        settle(&mut state, &lease, None).err().unwrap().message(),
        format!("投递记录丢失: {}", lease.id)
    );
}

#[test]
fn an_expired_lease_is_given_anew() {
    let mut state = ready();
    state.write_json(
        "deliveries.json",
        &json("[{\"id\": \"d\", \"state\": \"leased\", \"assigned_controller\": \"c1\", \"lease_expires_at_ms\": 5, \"attempts\": 3}]"),
    );
    let lease = dispatch_one(&mut state).unwrap().unwrap();
    assert_eq!(lease.id, "d");
    assert_eq!(state.deliveries()[0].at("attempts").as_u64(), Some(4));
}

#[test]
fn an_agent_without_a_name_or_pane_cannot_be_told() {
    let mut state = ready();
    state.write_json(
        "controllers.json",
        &json("[{\"id\": \"c1\", \"agent_session_id\": \"s\"}]"),
    );
    state.write_json(
        "runtime.json",
        &json("{\"agents\": [{\"agent_session\": {\"value\": \"s\"}, \"agent_status\": \"idle\"}]}"),
    );
    state.write_json("deliveries.json", &json("[{\"id\": \"d\", \"state\": \"pending\"}]"));
    let before = state.files.get("deliveries.json").unwrap().to_string();
    assert_eq!(
        dispatch_one(&mut state).err().unwrap().message(),
        "管制员没有可用的 Herdr target"
    );
    assert_eq!(state.files.get("deliveries.json").unwrap(), before);
}

#[test]
fn prompts_name_the_action() {
    let text = prompt_for(&json("{\"id\": \"d\", \"action\": \"go\"}"));
    assert!(text.contains("\n情况：\n建议动作：go\n\n上面"));
    assert!(!prompt_for(&json("{\"action\": \"\"}")).contains("建议动作"));
}
