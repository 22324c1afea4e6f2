use herdr_coordinator::attention::Clock;
use herdr_coordinator::herdr::{
    finish_event, finish_reconcile, finish_sync, open_action, open_args, plugin_event,
    snapshot_from, OpenAction,
};
use herdr_coordinator::json::{string, Json};
use herdr_coordinator::outside::parse_json;
use herdr_coordinator::runtime::{baseline, runtime_at};
use herdr_coordinator::state::State;
use herdr_coordinator::textmap::TextMap;
use herdr_coordinator::watch::{
    after_connection, after_start, after_stop, answer_in, apply_status, before_start, event_name, is_watcher,
    keeps_polling, may_watch, message_in, next_delay, on_connected, on_connecting, on_disconnected, on_message,
    owns_pid_file, pauses, pid_in, request_line, run, session_snapshot, socket_path, status_line,
    subscriptions, Answer, SocketEnv, Turn, WatchAction,
};

fn json(text: &str) -> Json {
    parse_json(text).unwrap()
}

fn strings(values: &[&str]) -> Vec<String> {
    values.iter().map(|value| value.to_string()).collect()
}

fn watched() -> State {
    let mut state = State { dir: "/srv/state".to_string(), files: TextMap::new() };
    state.write_json(
        "fleets.json",
        &json("{\"demo\": {\"commander\": \"demo-cmd\", \"reported_status\": \"done\"}}"),
    );
    state
}

const SNAPSHOT: &str = "{\"version\": \"1\", \"agents\": [
    {\"name\": \"demo-cmd\", \"pane_id\": \"p1\", \"agent_status\": \"idle\"},
    {\"name\": \"demo-cmd\", \"pane_id\": \"p2\", \"agent_status\": \"working\", \"workspace_id\": \"w\"}]}";

#[test]
fn the_last_agent_of_a_name_counts() {
    let registry = json("{\"demo\": {\"commander\": \"demo-cmd\"}, \"gone\": {\"commander\": \"x\"}}");
    let runtime = runtime_at(
        registry.as_object().unwrap(),
        &json("{}"),
        &json(SNAPSHOT),
        true,
        None,
        "test",
        None,
        "t1",
    );
    let demo = runtime.at("projects").at("demo");
    assert_eq!(string(&demo, "live_status"), "working");
    assert_eq!(string(&demo, "pane_id"), "p2");
    assert_eq!(string(&demo, "workspace_id"), "w");
    assert!(demo.at("state_labels").equals(&json("{}")));
    let gone = runtime.at("projects").at("gone");
    assert_eq!(string(&gone, "live_status"), "offline");
    assert!(!gone.flag("online", true));
    assert_eq!(string(&runtime, "herdr_version"), "1");
    assert!(runtime.at("error").equals(&Json::Null));
}

#[test]
fn what_does_not_change_keeps_its_time() {
    let registry = json("{\"demo\": {\"commander\": \"demo-cmd\"}}");
    let object = registry.as_object().unwrap();
    let none = json("{}");
    let first = runtime_at(object, &none, &json(SNAPSHOT), true, None, "s", None, "t1");
    let second = runtime_at(object, &first, &json(SNAPSHOT), true, None, "s", None, "t2");
    let demo = second.at("projects").at("demo");
    assert_eq!(string(&demo, "live_status_since"), "t1");
    assert_eq!(string(&demo, "observed_at"), "t2");
    let offline = runtime_at(object, &second, &none, true, None, "s", None, "t3");
    assert_eq!(string(&offline.at("projects").at("demo"), "live_status_since"), "t3");
}

#[test]
fn what_was_known_is_remembered() {
    let known = baseline(&json("{\"agents\": [1], \"herdr_version\": \"v\", \"protocol\": 3}"));
    assert!(known.equals(&json("{\"agents\": [1], \"version\": \"v\", \"protocol\": 3}")));
    assert!(baseline(&json("{}")).equals(&json("{\"agents\": [], \"version\": null, \"protocol\": null}")));
}

#[test]
fn snapshots_are_found_where_they_stand() {
    for printed in ["{\"a\": 1}", "{\"result\": {\"a\": 1}}", "{\"result\": {\"snapshot\": {\"a\": 1}}}"] {
        assert!(snapshot_from(true, printed, "").unwrap().equals(&json("{\"a\": 1}")));
    }
    assert_eq!(
        snapshot_from(true, "[]", "").err().unwrap().report(),
        "Herdr 未返回有效 snapshot"
    );
    assert!(snapshot_from(true, "{", "").err().unwrap().report().starts_with("无法解析 Herdr 快照: EOF"));
    assert_eq!(snapshot_from(false, "{}", " bad \n").err().unwrap().report(), "bad");
}

#[test]
fn observing_leaves_the_reports_alone() {
    let mut state = watched();
    let fleets = state.files.get("fleets.json").unwrap().to_string();
    assert_eq!(finish_sync(&mut state, &json(SNAPSHOT)), "已从 Herdr 快照恢复 2 个 Agent 的实时基线");
    assert_eq!(string(&state.runtime(), "source"), "manual_sync");
    assert_eq!(finish_reconcile(&mut state, &json("{}")), "plugin reconciled: 0 agents");
    assert_eq!(string(&state.runtime(), "source"), "plugin_startup");
    assert_eq!(state.files.get("fleets.json").unwrap(), fleets);
    assert_eq!(string(&state.load("attention.json", Json::Null).into_items()[0], "kind"), "reported_done_unverified");
}

#[test]
fn plugin_events_are_recorded() {
    let mut state = watched();
    finish_sync(&mut state, &json(SNAPSHOT));
    let event = plugin_event(Some("{\"event\": \"pane.created\"}"), None).unwrap();
    assert_eq!(event.name, Some("pane.created".to_string()));
    assert_eq!(
        finish_event(&mut state, event, Ok(json("{}"))),
        "plugin event reconciled: pane.created (0 agents)"
    );
    assert_eq!(string(&state.runtime().at("last_event"), "name"), "pane.created");
    finish_sync(&mut state, &json(SNAPSHOT));
    let event = plugin_event(Some("  "), None).unwrap();
    assert_eq!(
        finish_event(&mut state, event, Err("no herdr".to_string())),
        "plugin event reconciled: unknown (2 agents)"
    );
    assert!(!state.runtime().flag("connected", true));
    assert_eq!(string(&state.runtime(), "error"), "no herdr");
    let named = plugin_event(Some("{\"event\": \"x\"}"), Some("given")).unwrap();
    assert_eq!(named.name, Some("given".to_string()));
    assert!(plugin_event(Some("{"), None)
        .err()
        .unwrap()
        .report()
        .starts_with("HERDR_PLUGIN_EVENT_JSON 无效: "));
}

#[test]
fn the_tower_is_opened_focused_or_closed() {
    let listing = |extra: &str| {
        format!(
            "{{\"result\": {{\"panes\": [{{\"label\": \"x\", \"title\": \"Fleet Control Tower\"}},
               {{\"title\": \"Fleet Control Tower\", \"pane_id\": \"p\"{extra}}}]}}}}"
        )
    };
    assert!(matches!(open_action(Some(&listing("")), None), OpenAction::Focus(id) if id == "p"));
    assert!(matches!(
        open_action(Some(&listing(", \"focused\": true")), None),
        OpenAction::Close(id) if id == "p"
    ));
    assert!(matches!(
        open_action(Some("nonsense"), None),
        OpenAction::Open(id) if id == "sm-yjr.herdr-coordinator"
    ));
    let action = open_action(None, Some("own"));
    assert_eq!(
        open_args(&action),
        strings(&[
            "plugin", "pane", "open", "--plugin", "own", "--entrypoint", "tower", "--placement",
            "overlay", "--focus",
        ])
    );
    assert_eq!(open_args(&OpenAction::Close("p".to_string())), strings(&["pane", "close", "p"]));
    assert_eq!(
        open_args(&OpenAction::Focus("p".to_string())),
        strings(&["plugin", "pane", "focus", "p"])
    );
}

#[test]
fn watch_commands_take_no_arguments() {
    assert_eq!(run("watch", &[]).unwrap(), WatchAction::Foreground);
    assert_eq!(run("watch-start", &[]).unwrap(), WatchAction::Start);
    assert_eq!(run("watch-status", &[]).unwrap(), WatchAction::Status);
    assert_eq!(run("watch-stop", &[]).unwrap(), WatchAction::Stop);
    assert!(run("watch", &strings(&["x"])).is_err());
}

#[test]
fn one_watcher_runs_outside_the_plugin() {
    assert!(may_watch(false, None, 7).is_ok());
    assert!(may_watch(false, Some(7), 7).is_ok());
    assert_eq!(
        may_watch(false, Some(8), 7).err().unwrap().message(),
        "事件监听器已在运行（pid 8）"
    );
    assert!(may_watch(true, None, 7).err().unwrap().message().starts_with("Plugin 模式"));
    assert_eq!(pid_in(" 42\n"), Some(42));
    assert_eq!(pid_in("x"), None);
    assert!(owns_pid_file("42\n", 42));
    assert!(!owns_pid_file("43", 42));
    assert!(is_watcher("/usr/bin/herdr-coordinator watch"));
    assert!(!is_watcher("herdr-coordinator list"));
}

#[test]
fn the_watcher_says_how_it_is() {
    let on = json("{\"connected\": true}");
    let off = json("{}");
    assert_eq!(before_start(false, None), None);
    assert_eq!(before_start(false, Some(3)), Some("事件监听器已在运行（pid 3）".to_string()));
    assert!(before_start(true, None).unwrap().ends_with("无独立 watcher"));
    assert_eq!(after_start(Some(3), "log").unwrap(), "事件监听器已启动（pid 3）");
    assert_eq!(after_start(None, "log").err().unwrap().message(), "事件监听器启动失败；查看 log");
    assert_eq!(status_line(false, None, &on), "事件监听器未运行");
    assert_eq!(status_line(false, Some(3), &on), "事件监听器运行中（pid 3，已连接 Herdr）");
    assert_eq!(status_line(false, Some(3), &off), "事件监听器运行中（pid 3，正在重连 Herdr）");
    assert_eq!(status_line(true, None, &off), "Plugin 事件模式（等待 snapshot 对账，无独立 watcher）");
    assert_eq!(after_stop(None, false).unwrap(), "事件监听器未运行");
    assert_eq!(after_stop(Some(3), true).unwrap(), "事件监听器已停止");
    assert_eq!(after_stop(Some(3), false).err().unwrap().message(), "事件监听器没有及时停止");
}

#[test]
fn the_socket_lies_beside_the_configuration() {
    let mut env = SocketEnv {
        socket: None,
        config: None,
        session: None,
        home: Some("/home/op".to_string()),
    };
    assert_eq!(socket_path(&env), "/home/op/.config/herdr/herdr.sock");
    env.session = Some("default".to_string());
    assert_eq!(socket_path(&env), "/home/op/.config/herdr/herdr.sock");
    env.session = Some("s1".to_string());
    assert_eq!(socket_path(&env), "/home/op/.config/herdr/sessions/s1/herdr.sock");
    env.config = Some("conf.toml".to_string());
    assert_eq!(socket_path(&env), "sessions/s1/herdr.sock");
    env.config = Some("/".to_string());
    assert_eq!(socket_path(&env), "./sessions/s1/herdr.sock");
    env.socket = Some("/run/h.sock".to_string());
    assert_eq!(socket_path(&env), "/run/h.sock");
}

#[test]
fn requests_and_answers_are_lines() {
    assert_eq!(
        request_line("i", "m", Json::empty_object()),
        "{\"id\":\"i\",\"method\":\"m\",\"params\":{}}\n"
    );
    let answer = message_in("{\"id\": \"i\", \"result\": {\"snapshot\": {\"a\": 1}}}\n").unwrap();
    assert!(session_snapshot(&answer).unwrap().equals(&json("{\"a\": 1}")));
    assert!(matches!(answer_in(answer, "i").unwrap(), Answer::Found(_)));
    let other = json("{\"event\": \"x\"}");
    assert_eq!(session_snapshot(&other).err().unwrap().message(), "Herdr 未返回 session snapshot");
    assert!(matches!(answer_in(other, "i").unwrap(), Answer::Pending(_)));
    let error = json("{\"id\": \"i\", \"error\": {\"code\": 4}}");
    assert_eq!(answer_in(error, "i").err().unwrap().message(), "{\"code\":4}");
    assert!(message_in("{").is_err());
}

#[test]
fn panes_are_subscribed_once_and_in_order() {
    let snapshot = json(
        "{\"agents\": [{\"pane_id\": \"b\"}, {\"pane_id\": \"a\"}, {\"pane_id\": \"b\"}, {}]}",
    );
    let items = subscriptions(&snapshot).into_items();
    assert_eq!(items.len(), 11);
    assert_eq!(string(&items[0], "type"), "workspace.created");
    assert_eq!(string(&items[8], "type"), "pane.agent_detected");
    assert!(items[9].equals(&json("{\"type\": \"pane.agent_status_changed\", \"pane_id\": \"a\"}")));
    assert_eq!(string(&items[10], "pane_id"), "b");
}

#[test]
fn every_known_event_has_an_alias() {
    for name in [
        "workspace.created", "workspace.closed", "tab.created", "tab.closed", "pane.created",
        "pane.closed", "pane.moved", "pane.exited", "pane.agent_detected",
        "pane.agent_status_changed",
    ] {
        let alias = name.replace('.', "_");
        assert_eq!(event_name(&json(&format!("{{\"event\": \"{alias}\"}}"))), name);
        assert_eq!(event_name(&json(&format!("{{\"data\": {{\"type\": \"{alias}\"}}}}"))), name);
    }
    assert_eq!(event_name(&json("{\"event\": \"a.b_c\"}")), "a.b_c");
    assert_eq!(event_name(&json("{\"event\": \"unknown_event\"}")), "unknown_event");
    assert_eq!(event_name(&json("{\"event\": 5, \"data\": {\"type\": \"tab_closed\"}}")), "");
}

#[test]
fn a_status_event_stays_in_its_pane() {
    let mut snapshot = json(
        "{\"version\": 1, \"agents\": [{\"pane_id\": \"a\", \"name\": \"n\"}, {\"pane_id\": \"b\"}],
          \"panes\": [{\"pane_id\": \"a\"}]}",
    );
    let message = json(
        "{\"event\": \"pane_agent_status_changed\",
          \"data\": {\"pane_id\": \"a\", \"title\": \"T\", \"name\": \"no\", \"agent_status\": \"done\"}}",
    );
    assert!(apply_status(&mut snapshot, &message));
    assert!(snapshot.equals(&json(
        "{\"version\": 1, \"agents\": [{\"pane_id\": \"a\", \"name\": \"n\", \"title\": \"T\", \"agent_status\": \"done\"},
          {\"pane_id\": \"b\"}], \"panes\": [{\"pane_id\": \"a\", \"title\": \"T\", \"agent_status\": \"done\"}]}"
    )));
    assert!(!apply_status(&mut snapshot, &json("{\"event\": \"tab.closed\"}")));
    assert!(!apply_status(&mut snapshot, &json("{\"event\": \"pane.agent_status_changed\"}")));
}

#[test]
fn the_watcher_follows_its_connection() {
    let mut state = watched();
    on_connecting(&mut state);
    assert_eq!(string(&state.runtime(), "error"), "正在建立 Herdr 事件订阅");
    let mut snapshot = json(SNAPSHOT);
    on_connected(&mut state, &snapshot);
    assert!(state.runtime().flag("connected", false));
    let message = json(
        "{\"event\": \"pane.agent_status_changed\", \"data\": {\"pane_id\": \"p2\", \"agent_status\": \"blocked\"}}",
    );
    on_message(&mut state, &mut snapshot, &message).unwrap();
    assert_eq!(string(&state.runtime().at("projects").at("demo"), "live_status"), "blocked");
    assert!(state.runtime().at("last_event").equals(&message));
    let changed = on_message(&mut state, &mut snapshot, &json("{\"event\": \"pane.closed\"}"));
    assert_eq!(changed.err().unwrap().message(), "topology changed");
    on_disconnected(&mut state, "gone");
    assert!(!state.runtime().flag("connected", true));
    assert_eq!(string(&state.runtime(), "error"), "gone");
    assert_eq!(state.runtime().at("agents").into_items().len(), 2);
    assert_eq!(string(state.registry().get("demo").unwrap(), "reported_status"), "done");
}

#[test]
fn delays_double_up_to_five_seconds() {
    assert_eq!(next_delay(250), 500);
    assert_eq!(next_delay(2500), 5000);
    assert_eq!(next_delay(4000), 5000);
    assert_eq!(pauses(250), 5);
    assert_eq!(pauses(30), 1);
    assert_eq!(after_connection(true, true, 1000), (Turn::End, 1000));
    assert_eq!(after_connection(true, false, 1000), (Turn::Connect, 250));
    assert_eq!(after_connection(false, false, 1000), (Turn::Retry(20), 2000));
    assert_eq!(after_connection(false, false, 4000), (Turn::Retry(80), 5000));
    assert!(keeps_polling(39, false));
    assert!(!keeps_polling(40, false));
    assert!(!keeps_polling(0, true));
}

#[test]
fn snapshots_can_be_taken_in_at_a_given_time() {
    let mut state = watched();
    let clock = Clock { text: "2026-08-25 10:00:00".to_string(), moment: Clock::read().moment };
    herdr_coordinator::herdr::observe_at(
        &mut state,
        &json(SNAPSHOT),
        true,
        None,
        "s",
        None,
        &clock,
    );
    assert_eq!(string(&state.runtime(), "updated_at"), "2026-08-25 10:00:00");
}
