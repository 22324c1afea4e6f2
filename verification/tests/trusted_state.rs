use herdr_coordinator::attention::{compute_attention, Clock};
use herdr_coordinator::commands::{finish_route, finish_verify, run, verify_timeout, Reply};
use herdr_coordinator::json::{string, Json};
use herdr_coordinator::ledger::{judge, parse_evidence, Check, Ending, Execution};
use herdr_coordinator::outside::{now, parse_json};
use herdr_coordinator::records::effective_status;
use herdr_coordinator::state::{Env, State};
use herdr_coordinator::textmap::TextMap;

fn json(text: &str) -> Json {
    parse_json(text).unwrap()
}

fn strings(values: &[&str]) -> Vec<String> {
    values.iter().map(|value| value.to_string()).collect()
}

fn env() -> Env {
    Env {
        home: Some("/home/op".to_string()),
        plugin_state_dir: None,
        plugin_id: None,
        coordinator_home: None,
        state_home: None,
        user: None,
        current_dir: Ok("/work".to_string()),
    }
}

fn empty_state() -> State {
    State { dir: "/srv/state".to_string(), files: TextMap::new() }
}

fn say(state: &mut State, args: &[&str]) -> Vec<String> {
    match run(state, &strings(args), &env(), false).unwrap() {
        Reply::Printed { lines, .. } => lines,
        _ => panic!("lines are printed"),
    }
}

fn refuse(state: &mut State, args: &[&str]) -> String {
    run(state, &strings(args), &env(), false).err().unwrap().report()
}

fn demo() -> State {
    let mut state = empty_state();
    say(&mut state, &["init"]);
    say(
        &mut state,
        &["register", "demo", "--tab", "t", "--commander", "demo-cmd", "--cwd", "app"],
    );
    state
}

fn entry(state: &State, name: &str) -> Json {
    state.registry().get("demo").unwrap().at(name)
}

fn check_of(state: &mut State, args: &[&str]) -> Check {
    match run(state, &strings(args), &env(), false).unwrap() {
        Reply::Verify(check) => check,
        _ => panic!("a verification is to be run"),
    }
}

fn ended(ending: Ending) -> Execution {
    let (exit_code, error) = judge(&ending);
    Execution {
        exit_code,
        stdout: "x".repeat(5000),
        stderr: String::new(),
        error,
        started_at: now(),
        finished_at: now(),
        duration_ms: -5,
    }
}

#[test]
fn registering_resolves_the_directory_and_keeps_reports() {
    let mut state = demo();
    assert!(entry(&state, "cwd").equals(&Json::text("/work/app")));
    assert!(entry(&state, "status").equals(&Json::text("idle")));
    assert!(entry(&state, "note").equals(&Json::text("")));
    assert!(entry(&state, "claim_id").equals(&Json::Null));
    say(&mut state, &["report", "demo", "working", "on it"]);
    let lines = say(
        &mut state,
        &["register", "demo", "--tab", "t2", "--commander", "other", "--cwd", "~/x"],
    );
    assert_eq!(lines, strings(&["registered: demo（机长 other）"]));
    assert!(entry(&state, "cwd").equals(&Json::text("/home/op/x")));
    assert!(entry(&state, "reported_status").equals(&Json::text("working")));
    assert!(entry(&state, "note").equals(&Json::text("on it")));
}

#[test]
fn registering_takes_all_its_options() {
    let mut state = demo();
    let before = state.files.get("fleets.json").unwrap().to_string();
    for args in [
        vec!["register", "x", "--tab", "t", "--commander", "c"],
        vec!["register", "x", "--tab", "t", "--commander", "c", "--cwd", ""],
        vec!["register", "x", "--tab", "t", "--commander", "c", "--cwd", "d", "y"],
    ] {
        assert!(refuse(&mut state, &args).starts_with("Herdr Coordinator"));
    }
    assert_eq!(state.files.get("fleets.json").unwrap(), before);
}

#[test]
fn unregistering_takes_one_project_out() {
    let mut state = demo();
    assert_eq!(say(&mut state, &["unregister", "demo"]), strings(&["removed: demo"]));
    assert_eq!(
        refuse(&mut state, &["unregister", "demo"]),
        "未注册的项目: demo（先 fleet register）"
    );
    assert_eq!(say(&mut state, &["list"]), strings(&["(注册表为空)"]));
}

#[test]
fn statuses_are_known_ones() {
    let mut state = demo();
    assert_eq!(
        refuse(&mut state, &["set-status", "demo", "asleep"]),
        "状态必须是: working/idle/done/blocked/need_decision"
    );
    assert_eq!(
        refuse(&mut state, &["set-status", "demo", "need_decision"]),
        "need_decision 必须提供需要拍板的问题"
    );
    assert_eq!(
        say(&mut state, &["set-status", "demo", "working", "a", " b "]),
        strings(&["ok: demo -> working"])
    );
    assert!(entry(&state, "note").equals(&Json::text("a  b")));
    let lines = say(&mut state, &["set-status", "demo", "need_decision", "ship", "it?"]);
    assert!(lines[0].starts_with("待拍板: demo-"));
    assert_eq!(string(&state.decisions()[0], "question"), "ship it?");
    assert_eq!(refuse(&mut state, &["set-status", "nope", "idle"]), "未注册的项目: nope（先 fleet register）");
}

#[test]
fn reports_are_refused_in_words() {
    let mut state = demo();
    assert_eq!(refuse(&mut state, &["report", "demo", "done", "--evidence"]), "--evidence 后缺少参数");
    assert_eq!(
        refuse(&mut state, &["report", "demo", "done", "x", "--confidence"]),
        "--confidence 后缺少参数"
    );
    assert_eq!(
        refuse(&mut state, &["report", "demo", "done", "x", "--evidence", "log: "]),
        "--evidence 不能为空"
    );
    assert_eq!(refuse(&mut state, &["report", "demo", "done", " "]), "必须提供一行摘要");
    assert_eq!(
        refuse(&mut state, &["report", "demo", "done", "x", "--confidence", "2"]),
        "--confidence 必须在 0 到 1 之间"
    );
    assert!(state.claims().is_empty());
}

#[test]
fn a_report_says_what_comes_next() {
    let mut state = demo();
    let lines = say(&mut state, &["report", "demo", "done", "all", "green", "--confidence", "0.5"]);
    let id = string(&state.claims()[0], "id");
    let parts: Vec<&str> = id.split('-').collect();
    assert_eq!(parts[..2], ["demo", "claim"]);
    let widths: Vec<usize> = parts[2..].iter().map(|part| part.len()).collect();
    assert_eq!(widths, vec![8, 6, 6]);
    assert!(parts[2..4].iter().all(|part| part.chars().all(|c| c.is_ascii_digit())));
    assert_eq!(lines[0], format!("claimed: {id}"));
    assert_eq!(
        lines[1],
        format!("next: fleet verify demo --claim {id} --label <标签> -- <验证命令>")
    );
    assert_eq!(
        say(&mut state, &["claims"]),
        vec![format!("{id}  demo  done  reported  all green  confidence=0.50  evidence=0")]
    );
    let inbox = state.inbox_entries();
    assert_eq!(string(&inbox[0], "type"), "status_claimed");
    assert!(inbox[0].at("confidence").equals(&json("0.5")));
}

#[test]
fn a_report_that_needs_a_decision_asks() {
    let mut state = demo();
    say(&mut state, &["report", "demo", "need_decision", "which", "way?"]);
    assert!(state.claims().is_empty());
    assert_eq!(string(&state.decisions()[0], "question"), "which way?");
}

#[test]
fn evidence_has_a_kind_and_a_detail() {
    let plain = parse_evidence(" looks fine ", "abc", "t").unwrap();
    assert_eq!(string(&plain, "kind"), "note");
    assert_eq!(string(&plain, "value"), "looks fine");
    assert_eq!(string(&plain, "id"), "evidence-abc");
    let commit = parse_evidence(" commit : a:b ", "abc", "t").unwrap();
    assert_eq!(string(&commit, "kind"), "commit");
    assert_eq!(string(&commit, "value"), "a:b");
    assert_eq!(string(&parse_evidence(":x", "abc", "t").unwrap(), "kind"), "note");
    assert!(parse_evidence("commit:", "abc", "t").is_err());
}

#[test]
fn an_open_decision_overrides_and_the_last_answer_restores() {
    let mut state = demo();
    say(&mut state, &["report", "demo", "working", "w"]);
    say(&mut state, &["ask", "demo", "first?"]);
    say(&mut state, &["ask", "demo", "second?"]);
    let registry = state.registry();
    assert_eq!(
        effective_status(registry.get("demo").unwrap(), &state.decisions(), "demo"),
        "need_decision"
    );
    let first = string(&state.decisions()[0], "id");
    let second = string(&state.decisions()[1], "id");
    assert_eq!(
        say(&mut state, &["resolve", &first, "yes", "please"]),
        vec![format!("已拍板: {first} -> yes please")]
    );
    assert!(entry(&state, "status").equals(&Json::text("need_decision")));
    assert!(entry(&state, "note").equals(&Json::text("second?")));
    say(&mut state, &["resolve", &second, "no"]);
    assert!(entry(&state, "status").equals(&Json::text("working")));
    assert!(entry(&state, "note").equals(&Json::text("已拍板：no")));
    assert_eq!(
        refuse(&mut state, &["resolve", &second, "again"]),
        format!("决策已经解决: {second}")
    );
    assert_eq!(refuse(&mut state, &["resolve", "none", "x"]), "找不到决策: none");
    assert_eq!(refuse(&mut state, &["resolve", &first, " "]), "必须提供用户的拍板答案");
}

#[test]
fn decisions_are_listed_with_options_and_answers() {
    let mut state = demo();
    assert_eq!(say(&mut state, &["decisions"]), strings(&["(没有待拍板事项)"]));
    assert_eq!(say(&mut state, &["decisions", "--all"]), strings(&["(没有决策记录)"]));
    say(&mut state, &["ask", "demo", "go?", "--option", "yes", "--option", "no"]);
    let id = string(&state.decisions()[0], "id");
    assert_eq!(
        say(&mut state, &["decisions"]),
        vec![format!("{id}  demo  待拍板  go?  选项: yes / no")]
    );
    say(&mut state, &["resolve", &id, "yes"]);
    assert_eq!(
        say(&mut state, &["decisions", "--all"]),
        vec![format!("{id}  demo  已解决  go?  选项: yes / no  结论: yes")]
    );
    assert_eq!(refuse(&mut state, &["ask", "demo", "go?", "--option"]), "--option 后必须提供内容");
    assert_eq!(refuse(&mut state, &["ask", "demo", "--option", "x"]), "必须提供需要拍板的问题");
}

#[test]
fn a_failed_verification_takes_a_verified_claim_back() {
    let mut state = demo();
    say(&mut state, &["report", "demo", "done", "x"]);
    let check = check_of(&mut state, &["verify", "demo", "--", "true"]);
    assert_eq!(check.label, "verification");
    finish_verify(&mut state, &check, &ended(Ending::Finished(Some(0)))).unwrap();
    assert!(entry(&state, "claim_state").equals(&Json::text("verified")));
    let evidence = state.claims()[0].at("evidence").into_items();
    assert_eq!(string(&evidence[0], "stdout_tail").len(), 4000);
    assert!(evidence[0].at("duration_ms").equals(&Json::integer(0)));
    assert!(evidence[0].at("verified").equals(&Json::Bool(true)));
    finish_verify(&mut state, &check, &ended(Ending::TimedOut(9))).unwrap();
    assert!(entry(&state, "claim_state").equals(&Json::text("reported")));
    let evidence = state.claims()[0].at("evidence").into_items();
    assert_eq!(evidence.len(), 2);
    assert_eq!(string(&evidence[1], "error"), "timeout after 9s");
    assert!(evidence[1].at("exit_code").equals(&Json::integer(124)));
    assert_eq!(string(&state.inbox_entries()[2], "type"), "verification_failed");
}

#[test]
fn what_is_accepted_stays_accepted() {
    let mut state = demo();
    say(&mut state, &["report", "demo", "done", "x"]);
    assert_eq!(
        refuse(&mut state, &["accept", "demo"]),
        "claim 尚未通过机器验证；先运行 fleet verify，或由用户明确授权 --force"
    );
    assert_eq!(
        refuse(&mut state, &["accept", "demo", "--force"]),
        "--force 必须同时提供 --note，记录接受未验证风险的原因"
    );
    let id = string(&state.claims()[0], "id");
    assert_eq!(
        say(&mut state, &["accept", "demo", "--force", "--note", "risk"]),
        vec![format!("accepted: {id}")]
    );
    let claim = &state.claims()[0];
    assert_eq!(string(claim, "acceptance_note"), "risk");
    assert_eq!(string(claim, "accepted_by"), "operator");
    let check = check_of(&mut state, &["verify", "demo", "--claim", &id, "--", "false"]);
    finish_verify(&mut state, &check, &ended(Ending::NotStarted("no".to_string()))).unwrap();
    assert_eq!(string(&state.claims()[0], "state"), "accepted");
    assert!(entry(&state, "claim_state").equals(&Json::text("accepted")));
}

#[test]
fn verification_is_refused_in_words() {
    let mut state = demo();
    assert_eq!(refuse(&mut state, &["verify", "demo", "--", "x"]), "项目 demo 没有可验证的 claim");
    assert_eq!(refuse(&mut state, &["verify", "no", "--", "x"]), "未注册的项目: no（先 fleet register）");
    assert!(refuse(&mut state, &["verify", "demo", "--"]).starts_with("Herdr Coordinator"));
    assert!(refuse(&mut state, &["verify", "demo", "--claim", "--", "x"]).starts_with("Herdr"));
    assert_eq!(refuse(&mut state, &["accept", "demo"]), "项目 demo 没有可验收的 claim");
    say(&mut state, &["report", "demo", "working", "w"]);
    assert_eq!(refuse(&mut state, &["accept", "demo"]), "只有 done claim 可以验收");
    let check = check_of(&mut state, &["verify", "demo", "--", "x"]);
    state.write_json("claims.json", &json("[]"));
    assert_eq!(
        finish_verify(&mut state, &check, &ended(Ending::Finished(None))).err().unwrap().report(),
        format!("claim 在验证期间被删除: {}", check.claim_id)
    );
    state.write_json(
        "claims.json",
        &json(&format!(
            "[{{\"id\": \"{}\", \"project\": \"demo\", \"evidence\": null}}]",
            check.claim_id
        )),
    );
    assert_eq!(
        finish_verify(&mut state, &check, &ended(Ending::Finished(None))).err().unwrap().report(),
        "claim evidence 格式无效"
    );
}

#[test]
fn exit_codes_are_judged() {
    assert_eq!(judge(&Ending::Finished(Some(3))), (3, None));
    assert_eq!(judge(&Ending::Finished(None)), (1, None));
    assert_eq!(judge(&Ending::TimedOut(2)), (124, Some("timeout after 2s".to_string())));
    assert_eq!(judge(&Ending::NotStarted("gone".to_string())), (127, Some("gone".to_string())));
}

#[test]
fn claims_are_listed_by_project() {
    let mut state = demo();
    assert_eq!(say(&mut state, &["claims"]), strings(&["(没有状态声明)"]));
    state.write_json(
        "claims.json",
        &json(
            "[{\"id\": \"z1\", \"project\": \"z\"}, {\"id\": \"a1\", \"project\": \"a\"},
              {\"id\": \"z2\", \"project\": \"z\", \"evidence\": [1, 2]}]",
        ),
    );
    assert_eq!(
        say(&mut state, &["claims"]),
        strings(&["a1  a        evidence=0", "z2  z        evidence=2"])
    );
    assert_eq!(say(&mut state, &["claims", "--all"]).len(), 3);
    assert_eq!(say(&mut state, &["claims", "z", "--all"]).len(), 2);
    let printed = say(&mut state, &["claims", "a", "--json"]);
    assert!(json(&printed[0]).equals(&json("[{\"id\": \"a1\", \"project\": \"a\"}]")));
    assert!(refuse(&mut state, &["claims", "a", "b"]).starts_with("Herdr Coordinator"));
}

#[test]
fn the_inbox_shows_news_once() {
    let mut state = demo();
    assert_eq!(say(&mut state, &["inbox", "--all"]), strings(&["(收件箱为空)"]));
    say(&mut state, &["ask", "demo", "go?"]);
    let id = string(&state.decisions()[0], "id");
    let time = string(&state.inbox_entries()[0], "ts");
    let line = format!("[{time}] demo · need_decision · go? · 决策 {id}");
    assert_eq!(say(&mut state, &["inbox"]), vec![line.clone()]);
    assert_eq!(state.files.get("inbox.cursor"), Some("1"));
    assert_eq!(say(&mut state, &["inbox"]), strings(&["(没有新消息)"]));
    assert_eq!(say(&mut state, &["inbox", "--all"]), vec![line]);
}

#[test]
fn lines_of_the_inbox_that_do_not_parse_are_passed_over() {
    let mut state = demo();
    state.files.put("inbox.jsonl", "{\"a\":1}\nbroken\n\n[2]\n");
    assert_eq!(state.inbox_entries().len(), 2);
    state.append_inbox(&json("{\"b\": \"line\\nfeed\"}"));
    let entries = state.inbox_entries();
    assert_eq!(entries.len(), 3);
    assert_eq!(string(&entries[2], "b"), "line\nfeed");
}

#[test]
fn instructions_go_to_the_registered_commander() {
    let mut state = demo();
    match run(&mut state, &strings(&["route", "demo", "do", "it"]), &env(), false).unwrap() {
        Reply::Route { project, commander, words } => {
            assert_eq!(project, "demo");
            assert_eq!(commander, "demo-cmd");
            assert_eq!(words, "do it");
        }
        _ => panic!("a commander is prompted"),
    }
    assert_eq!(refuse(&mut state, &["route", "demo", " "]), "必须提供要转发给机长的指令");
    assert_eq!(refuse(&mut state, &["route", "x", "y"]), "未注册的项目: x（先 fleet register）");
    state.write_json("fleets.json", &json("{\"demo\": {}}"));
    assert_eq!(refuse(&mut state, &["route", "demo", "y"]), "项目 demo 没有登记机长");
    assert_eq!(finish_route("demo", true, "").unwrap(), "已转发给 demo 的机长");
    assert_eq!(finish_route("demo", false, " no\n").err().unwrap().report(), "no");
}

#[test]
fn the_list_shows_projects_and_strays() {
    let mut state = demo();
    state.write_json(
        "runtime.json",
        &json(
            "{\"connected\": true, \"agents\": [{\"name\": \"demo-cmd\"}, {\"name\": \"x-cmd\"}],
              \"projects\": {\"demo\": {\"live_status\": \"idle\"}}}",
        ),
    );
    let time = string(state.registry().get("demo").unwrap(), "updated_at");
    let lines = say(&mut state, &["list"]);
    assert_eq!(
        lines,
        vec![
            format!(
                "demo             机长=demo-cmd       项目=idle           实时=idle       更新={time}  "
            ),
            "⚠ 存活但未注册的机长: x-cmd".to_string(),
            "⚠ 事件监听器未运行；执行 ./fleet watch-start，或安装为 Herdr plugin".to_string(),
        ]
    );
}

#[test]
fn attention_is_listed_and_rebuilt() {
    let mut state = demo();
    assert_eq!(say(&mut state, &["attention"]), strings(&["(当前无需人工介入)"]));
    say(&mut state, &["ask", "demo", "go?"]);
    let id = string(&state.decisions()[0], "id");
    assert_eq!(
        say(&mut state, &["attention"]),
        vec![
            " 1. P100  demo  decision_required  go?  → user".to_string(),
            format!("    fleet resolve {id} <答案>"),
        ]
    );
    let printed = say(&mut state, &["attention", "--json"]);
    assert!(json(&printed[0]).equals(&state.load("attention.json", Json::Null)));
}

#[test]
fn attention_goes_by_rank_then_age_then_name() {
    let registry = json(
        "{\"b\": {\"commander\": \"b-cmd\", \"reported_status\": \"working\"},
          \"a\": {\"commander\": \"a-cmd\", \"reported_status\": \"blocked\"},
          \"c\": {\"reported_status\": \"done\"},
          \"d\": {\"reported_status\": \"done\", \"claim_id\": \"k\"},
          \"e\": {\"reported_status\": \"working\"},
          \"f\": {\"reported_status\": \"working\"}}",
    );
    let claims = vec![json(
        "{\"id\": \"k\", \"project\": \"d\", \"state\": \"verified\", \"verified_at\": \"2020-01-01 00:00:00\"}",
    )];
    let decisions = vec![
        json("{\"id\": \"q1\", \"project\": \"z\", \"state\": \"open\"}"),
        json("{\"id\": \"q2\", \"project\": \"z\", \"state\": \"resolved\"}"),
    ];
    let runtime = json(
        "{\"connected\": true, \"projects\": {
            \"a\": {\"online\": false},
            \"b\": {\"online\": true, \"live_status\": \"blocked\", \"live_status_since\": \"2020-01-01 00:00:00\"},
            \"e\": {\"online\": true, \"live_status\": \"idle\", \"observed_at\": \"2020-01-01 00:00:00\"},
            \"f\": {\"online\": true, \"live_status\": \"idle\"}}}",
    );
    let queue = compute_attention(registry.as_object().unwrap(), &decisions, &claims, &runtime);
    let kinds: Vec<String> = queue.iter().map(|item| string(item, "kind")).collect();
    assert_eq!(
        kinds,
        strings(&[
            "decision_required",
            "stale_blocked",
            "commander_offline",
            "reported_done_unverified",
            "ready_for_acceptance",
            "project_idle_mismatch",
        ])
    );
    assert_eq!(string(&queue[0], "id"), "decision_required:z:q1");
    assert_eq!(string(&queue[0], "reason"), "需要用户拍板");
    assert_eq!(string(&queue[2], "reason"), "项目仍标记为 blocked，但机长 a-cmd 已离线");
    assert_eq!(string(&queue[3], "action"), "fleet report c done <摘要> 后运行 fleet verify");
    assert_eq!(string(&queue[4], "action"), "fleet accept d --claim k");
    assert_eq!(string(&queue[1], "id"), "stale_blocked:b:b");
}

#[test]
fn a_lost_runtime_needs_attention() {
    let registry = json("{\"a\": {}}");
    let gone = json("{\"connected\": false, \"error\": \"no socket\"}");
    let queue = compute_attention(registry.as_object().unwrap(), &[], &[], &gone);
    assert_eq!(queue.len(), 1);
    assert_eq!(string(&queue[0], "kind"), "runtime_disconnected");
    assert_eq!(string(&queue[0], "reason"), "no socket");
    assert_eq!(string(&queue[0], "project"), "*");
    let unknown = json("{}");
    assert!(compute_attention(registry.as_object().unwrap(), &[], &[], &unknown).is_empty());
    let none = json("{}");
    assert!(compute_attention(none.as_object().unwrap(), &[], &[], &gone).is_empty());
}

#[test]
fn a_fresh_block_is_observed_and_not_stale() {
    let registry = json("{\"a\": {\"reported_status\": \"working\"}}");
    let runtime = json(&format!(
        "{{\"connected\": true, \"projects\": {{\"a\": {{\"online\": true,
           \"live_status\": \"blocked\", \"live_status_since\": \"{}\"}}}}}}",
        now()
    ));
    let queue = compute_attention(registry.as_object().unwrap(), &[], &[], &runtime);
    assert_eq!(string(&queue[0], "kind"), "observed_blocked");
    assert!(queue[0].at("priority").equals(&Json::integer(82)));
}

#[test]
fn older_registries_are_migrated_once() {
    let mut state = empty_state();
    state.write_json(
        "fleets.json",
        &json(
            "{\"old\": {\"status\": \"need_decision\", \"note\": \"which?\", \"updated_at\": \"t\"},
              \"busy\": {\"status\": \"working\"}, \"odd\": 7}",
        ),
    );
    state.migrate_legacy();
    let decisions = state.decisions();
    assert_eq!(decisions.len(), 1);
    assert!(string(&decisions[0], "id").starts_with("old-legacy-"));
    assert_eq!(string(&decisions[0], "question"), "which?");
    assert_eq!(string(&decisions[0], "created_at"), "t");
    let registry = state.registry();
    assert_eq!(string(registry.get("old").unwrap(), "reported_status"), "idle");
    assert_eq!(string(registry.get("busy").unwrap(), "reported_status"), "working");
    assert!(state.files.has("claims.json"));
    let names = ["decisions.json", "claims.json", "fleets.json"];
    let texts: Vec<String> =
        names.iter().map(|name| state.files.get(name).unwrap().to_string()).collect();
    state.migrate_legacy();
    for (name, text) in names.iter().zip(&texts) {
        assert_eq!(state.files.get(name).unwrap(), text, "{name}");
    }
}

#[test]
fn an_older_directory_is_imported_once() {
    let mut plugin = env();
    plugin.plugin_state_dir = Some("/srv/state".to_string());
    let mut older = TextMap::new();
    older.put("fleets.json", "{\"a\": {}}");
    older.put("claims.json", "[1]");
    older.put("runtime.json", "{}");
    older.put("watch.pid", "1");
    let mut state = empty_state();
    state.files.put("claims.json", "[]");
    assert!(state.import_legacy_once(&env(), Some(&older), "/old").is_empty());
    assert!(state.import_legacy_once(&plugin, None, "/old").is_empty());
    assert!(!state.files.has("legacy-import.json"));
    assert_eq!(
        state.import_legacy_once(&plugin, Some(&older), "/old"),
        strings(&["fleets.json"])
    );
    assert_eq!(state.files.get("claims.json"), Some("[]"));
    assert!(!state.files.has("runtime.json"));
    assert!(!state.files.has("watch.pid"));
    assert_eq!(string(&state.load("legacy-import.json", Json::Null), "source"), "/old");
    older.put("decisions.json", "[]");
    assert!(state.import_legacy_once(&plugin, Some(&older), "/old").is_empty());
}

#[test]
fn an_initialisation_keeps_what_is_there() {
    let mut state = empty_state();
    state.files.put("inbox.jsonl", "{\"ts\":\"t\"}\n");
    state.files.put("claims.json", "not json");
    state.write_json(
        "attention.json",
        &json("[{\"kind\": \"stale_blocked\", \"id\": \"i\", \"created_at\": \"c\"}, {\"kind\": \"x\", \"id\": \"j\"}]"),
    );
    state.init();
    assert_eq!(state.files.get("claims.json"), Some("not json"));
    assert_eq!(state.files.get("inbox.cursor"), Some("0"));
    assert!(state.load("delivery-state.json", Json::Null).equals(&json(
        "{\"inbox_offset\": 1, \"attention_active\": [\"attention:i:c\"]}"
    )));
    assert!(state.claims().is_empty());
}

#[test]
fn help_and_nonsense() {
    let mut state = empty_state();
    for word in ["--help", "-h", "help"] {
        assert!(matches!(
            run(&mut state, &strings(&[word]), &env(), false).unwrap(),
            Reply::Help
        ));
    }
    assert!(!state.files.has("decisions.json"));
    assert!(refuse(&mut state, &[]).starts_with("Herdr Coordinator"));
    assert!(refuse(&mut state, &["dance"]).starts_with("Herdr Coordinator"));
    assert!(state.files.has("decisions.json"));
    assert!(refuse(&mut state, &["sync", "x"]).starts_with("Herdr Coordinator"));
    for (word, reply) in [("sync", 1), ("plugin-reconcile", 2), ("plugin-event", 3), ("tower", 4), ("open", 5)] {
        let found = match run(&mut state, &strings(&[word]), &env(), false).unwrap() {
            Reply::Sync => 1,
            Reply::Reconcile => 2,
            Reply::Event => 3,
            Reply::Tower => 4,
            Reply::Open => 5,
            _ => 0,
        };
        assert_eq!(found, reply);
    }
    assert!(matches!(
        run(&mut state, &strings(&["watch-stop", "now"]), &env(), false).unwrap(),
        Reply::Watch { verb, rest } if verb == "watch-stop" && rest == strings(&["now"])
    ));
}

#[test]
fn a_clock_reads_the_time() {
    let clock = Clock::read();
    assert_eq!(clock.text.len(), 19);
    let read = chrono::NaiveDateTime::parse_from_str(&clock.text, "%Y-%m-%d %H:%M:%S").unwrap();
    assert_eq!(read.format("%Y-%m-%d %H:%M:%S").to_string(), clock.text);
}

#[test]
fn a_verification_may_take_so_long() {
    assert_eq!(verify_timeout(None).unwrap(), 900);
    assert_eq!(verify_timeout(Some("+30")).unwrap(), 30);
    for (given, words) in [
        ("", "cannot parse integer from empty string"),
        ("1.5", "invalid digit found in string"),
        ("-1", "invalid digit found in string"),
        ("+", "invalid digit found in string"),
        ("18446744073709551616", "number too large to fit in target type"),
        ("18446744073709551616x", "number too large to fit in target type"),
        ("99x99999999999999999999", "invalid digit found in string"),
    ] {
        let expected = format!("HERDR_VERIFY_TIMEOUT 必须是秒数: {words}");
        assert_eq!(verify_timeout(Some(given)).err().unwrap().report(), expected);
        assert_eq!(given.parse::<u64>().unwrap_err().to_string(), words);
    }
}

#[test]
fn a_claim_with_a_confidence_is_read_again() {
    let mut state = demo();
    say(&mut state, &["report", "demo", "done", "x", "--confidence", "0.1234567890123456789"]);
    let claim = state.claims().remove(0);
    assert_eq!(string(&claim, "state"), "reported");
    assert!(string(&claim, "id").starts_with("demo-claim-"));
    assert!(matches!(claim.get("confidence"), Some(Json::Number(_))));
    assert_eq!(state.inbox_entries().len(), 1);
}

#[test]
fn the_reply_of_a_verification_carries_its_exit_code() {
    let mut state = demo();
    say(&mut state, &["report", "demo", "done", "x"]);
    let check = check_of(&mut state, &["verify", "demo", "--label", "l", "--", "true"]);
    for (ending, code, word) in [
        (Ending::Finished(Some(0)), 0, "verified"),
        (Ending::Finished(Some(-7)), -7, "verification failed"),
        (Ending::Finished(None), 1, "verification failed"),
        (Ending::TimedOut(9), 124, "verification failed"),
        (Ending::NotStarted("no".to_string()), 127, "verification failed"),
    ] {
        match finish_verify(&mut state, &check, &ended(ending)).unwrap() {
            Reply::Verified { lines, code: found } => {
                assert_eq!(found, code);
                let line = format!("{word}: {} (l, exit={code})", check.claim_id);
                assert_eq!(lines, vec![line]);
            }
            _ => panic!("a verification was settled"),
        }
    }
}

#[test]
fn reals_of_any_size_are_read_again() {
    let mut state = empty_state();
    let reals = "[1.7976931348623157e308, -1.7976931348623157e308, 5e-324, 1e300, 1e22, 0.1]";
    let written = json(reals).into_items();
    state.write_json("claims.json", &json(reals));
    let read = state.claims();
    assert_eq!(read.len(), written.len());
    for value in &read {
        assert!(matches!(value, Json::Number(_)));
        assert!(value.as_i64().is_none());
    }
    assert!(read[5].equals(&written[5]));
}

#[test]
fn documents_are_read_as_deep_as_the_parser_follows() {
    let mut state = empty_state();
    let nested = |depth: usize| format!("{}{}", "[".repeat(depth), "]".repeat(depth));
    let deepest = json(&nested(127));
    assert!(parse_json(&nested(128)).is_err());
    state.write_json("claims.json", &deepest);
    assert!(state.load("claims.json", Json::Null).equals(&deepest));
    state.write_json("claims.json", &Json::Array(vec![deepest]));
    assert!(state.load("claims.json", Json::Null).equals(&Json::Null));
}
