use herdr_coordinator::args::{no_args, option_pairs, parse_confidence, within_unit};
use herdr_coordinator::attention::age_seconds;
use herdr_coordinator::fault::{Fault, FaultKind, USAGE};
use herdr_coordinator::json::{array_of, optional_string, string, Json, Object};
use herdr_coordinator::ledger::tail;
use herdr_coordinator::outside::{
    compact, now, parse_json, pretty, read_number, rounded, short_uuid, utc_ms, Reading,
};
use herdr_coordinator::records::{latest_claim, latest_claim_mut, obj_mut, open_decisions};
use herdr_coordinator::state::{
    home_dir, join_path, registry_as_value, sorted_registry, state_candidates, Env, State,
};
use herdr_coordinator::text;
use herdr_coordinator::textmap::TextMap;

fn json(text: &str) -> Json {
    parse_json(text).unwrap()
}

fn strings(values: &[&str]) -> Vec<String> {
    values.iter().map(|value| value.to_string()).collect()
}

fn bare_env() -> Env {
    Env {
        home: Some("/home/op".to_string()),
        plugin_state_dir: None,
        plugin_id: None,
        coordinator_home: None,
        state_home: None,
        user: None,
        current_dir: Ok("/work".to_string()),
    }
}

fn before(seconds: i64) -> String {
    (chrono::Local::now() - chrono::Duration::seconds(seconds))
        .format("%Y-%m-%d %H:%M:%S")
        .to_string()
}

#[test]
fn objects_keep_their_names_in_order() {
    let object = json("{\"b\": 1, \"a\": 2, \"ä\": 3, \"B\": 4}");
    assert_eq!(object.as_object().unwrap().names(), strings(&["B", "a", "b", "ä"]));
    assert_eq!(compact(&object), "{\"B\":4,\"a\":2,\"b\":1,\"ä\":3}");
}

#[test]
fn printed_json_is_indented_and_reads_back() {
    let value = json("{\"list\": [1, -2, \"x\\ny\", null, true], \"empty\": {}}");
    let text = pretty(&value);
    assert_eq!(
        text,
        "{\n  \"empty\": {},\n  \"list\": [\n    1,\n    -2,\n    \"x\\ny\",\n    null,\n    true\n  ]\n}"
    );
    assert!(json(&text).equals(&value));
    assert!(!compact(&value).contains('\n'));
}

#[test]
fn json_errors_carry_the_words_of_the_parser() {
    assert_eq!(parse_json("{").err().unwrap(), "EOF while parsing an object at line 1 column 1");
}

#[test]
fn numbers_are_compared_by_value() {
    assert!(json("1").equals(&Json::integer(1)));
    assert!(json("18446744073709551615").equals(&Json::natural(u64::MAX)));
    assert!(!json("1").equals(&json("1.0")));
    assert!(json("0.5").equals(&json("5e-1")));
    assert!(!json("{\"a\": 1}").equals(&json("{\"a\": 1, \"b\": 2}")));
}

#[test]
fn members_are_read_by_name() {
    let value = json("{\"name\": \"demo\", \"n\": 3, \"on\": true}");
    assert_eq!(string(&value, "name"), "demo");
    assert_eq!(string(&value, "n"), "");
    assert_eq!(optional_string(&value, "missing"), None);
    assert_eq!(value.at("n").as_u64(), Some(3));
    assert!(value.flag("on", false));
    assert!(value.flag("off", true));
    assert!(array_of(&strings(&["a", "b"])).equals(&json("[\"a\", \"b\"]")));
}

#[test]
fn only_objects_have_members_to_change() {
    let mut value = json("{\"a\": 1}");
    obj_mut(&mut value).unwrap().put("b", Json::Null);
    assert!(value.equals(&json("{\"a\": 1, \"b\": null}")));
    let mut list = json("[1]");
    assert_eq!(obj_mut(&mut list).err().unwrap().message(), "状态文件不是 JSON object");
}

#[test]
fn removing_a_member_gives_it_back() {
    let mut object = Object::new();
    object.put("a", Json::text("x"));
    assert!(object.contains("a"));
    assert!(matches!(object.remove("a"), Some(Json::Text(_))));
    assert!(object.is_empty());
    assert!(registry_as_value(object).equals(&json("{}")));
}

#[test]
fn texts_are_cut_and_joined() {
    assert_eq!(text::trim("  \u{3000}a b\n"), "a b");
    assert_eq!(text::join(&strings(&["a", "b", "c"]), ", "), "a, b, c");
    assert_eq!(text::strip_prefix("demo-rev", "demo-"), Some("rev".to_string()));
    assert_eq!(text::lines("a\r\nb\n\nc"), strings(&["a", "b", "", "c"]));
    assert_eq!(text::lines("a\n"), strings(&["a"]));
    assert_eq!(text::byte_part("2026-08-25 10:11:12", 11, 19), Some("10:11:12".to_string()));
    assert_eq!(text::byte_part("机长", 1, 3), None);
    assert_eq!(text::byte_part("机长", 3, 6), Some("长".to_string()));
    assert_eq!(text::byte_part("short", 11, 19), None);
    assert_eq!(text::pad("机长", 4), "机长  ");
    assert_eq!(text::pad_left("7", 2), " 7");
}

#[test]
fn numbers_are_spelled_and_read() {
    assert_eq!(text::decimal(0), "0");
    assert_eq!(text::decimal(u64::MAX), "18446744073709551615");
    assert_eq!(text::decimal_signed(i64::MIN), "-9223372036854775808");
    assert_eq!(text::parse_natural("+42"), Some(42));
    assert_eq!(text::parse_natural("18446744073709551616"), None);
    assert_eq!(text::parse_natural(""), None);
    assert_eq!(text::parse_natural("+"), None);
    assert_eq!(text::parse_natural("4x"), None);
    assert_eq!(text::parse_integer("-2147483648"), Some(i32::MIN));
    assert_eq!(text::parse_integer("2147483648"), None);
    assert_eq!(text::parse_integer("-+5"), None);
}

#[test]
fn a_tail_keeps_the_last_characters() {
    assert_eq!(tail("abc", 4000), "abc");
    assert_eq!(tail("机长声明", 2), "声明");
    assert_eq!(tail("abc", 0), "");
}

#[test]
fn confidence_lies_from_zero_to_one() {
    for good in ["0", "1", "0.91", "1e-9", "-0", "0.00001", "+0.5"] {
        assert!(parse_confidence(good).is_ok(), "{good}");
    }
    for bad in ["1.0000001", "-0.1", "2", "1e300", "inf", "nan", "-1e-9"] {
        let refusal = parse_confidence(bad).err().unwrap();
        assert_eq!(refusal.message(), "--confidence 必须在 0 到 1 之间", "{bad}");
    }
    let refusal = parse_confidence("high").err().unwrap();
    assert_eq!(refusal.report(), "--confidence 必须是 0 到 1 的数字: invalid float literal");
    assert!(parse_confidence("0.91").unwrap().equals(&json("0.91")));
    assert!(within_unit("1.0"));
    assert!(!within_unit("1.5e16"));
}

#[test]
fn a_number_is_read_as_it_is_printed() {
    assert!(matches!(read_number("5e-1"), Reading::Finite(number) if number.spelling() == "0.5"));
    assert!(matches!(read_number("-inf"), Reading::Unbounded));
    assert!(matches!(read_number(""), Reading::Unreadable(words)
        if words == "cannot parse float from empty string"));
}

#[test]
fn numbers_are_rounded_to_two_places() {
    assert_eq!(rounded(&json("0.917")), Some("0.92".to_string()));
    assert_eq!(rounded(&json("1")), Some("1.00".to_string()));
    assert_eq!(rounded(&json("\"1\"")), None);
}

#[test]
fn ages_are_counted_in_seconds() {
    assert_eq!(age_seconds(None), 0);
    assert_eq!(age_seconds(Some("yesterday")), 0);
    assert_eq!(age_seconds(Some(&before(-600))), 0);
    let age = age_seconds(Some(&before(7200)));
    assert!((7199..7260).contains(&age));
    let written = (chrono::Local::now() - chrono::Duration::seconds(90)).to_rfc3339();
    assert!((89..150).contains(&age_seconds(Some(&written))));
}

#[test]
fn identifiers_are_hexadecimal_and_stamps_are_times() {
    let id = short_uuid(10);
    assert_eq!(id.len(), 10);
    assert!(id.chars().all(|c| c.is_ascii_digit() || ('a'..='f').contains(&c)));
    assert_ne!(short_uuid(32), short_uuid(32));
    assert_eq!(now().len(), 19);
    assert!(utc_ms() > 1_600_000_000_000);
}

#[test]
fn options_come_in_pairs_and_the_last_counts() {
    let options = option_pairs(&strings(&["--tab", "a", "--cwd", "b", "--tab", "c"])).unwrap();
    assert_eq!(options.get("--tab"), Some("c"));
    assert_eq!(options.get("--cwd"), Some("b"));
    assert_eq!(option_pairs(&strings(&["--tab"])).err().unwrap().message(), USAGE);
    assert!(no_args(&[]).is_ok());
    assert!(no_args(&strings(&["x"])).is_err());
}

#[test]
fn paths_are_joined_as_on_unix() {
    assert_eq!(join_path("/a/b", "c"), "/a/b/c");
    assert_eq!(join_path("/a/b/", "c"), "/a/b/c");
    assert_eq!(join_path("", "c"), "c");
    assert_eq!(join_path("/a", "/c"), "/c");
    assert_eq!(home_dir(&None), ".");
    let state = State { dir: "/srv/state".to_string(), files: TextMap::new() };
    assert_eq!(state.path("claims.json"), "/srv/state/claims.json");
}

#[test]
fn the_state_directory_is_found_in_order() {
    let mut env = bare_env();
    let candidates = state_candidates(&env);
    assert_eq!(
        candidates,
        strings(&[
            "/home/op/.local/state/herdr/plugins/sm-yjr.herdr-coordinator",
            "/home/op/.local/state/herdr-dev/plugins/sm-yjr.herdr-coordinator",
        ])
    );
    assert_eq!(State::discover(&env, &[]).dir, "/home/op/.herdr-coordinator");
    assert_eq!(State::discover(&env, &candidates[1..]).dir, candidates[1]);
    assert_eq!(State::discover(&env, &candidates).dir, candidates[0]);
    env.coordinator_home = Some("/own".to_string());
    assert_eq!(State::discover(&env, &candidates).dir, "/own");
    env.plugin_state_dir = Some("/given".to_string());
    assert_eq!(State::discover(&env, &candidates).dir, "/given");
    env.state_home = Some("/xdg".to_string());
    assert_eq!(state_candidates(&env)[0], "/xdg/herdr/plugins/sm-yjr.herdr-coordinator");
}

#[test]
fn a_directory_of_plugins_means_plugin_mode() {
    let mut env = bare_env();
    let plugin = State { dir: "/x/plugins/y".to_string(), files: TextMap::new() };
    let other = State { dir: "/x/plugins2/y".to_string(), files: TextMap::new() };
    assert!(plugin.plugin_mode(&env));
    assert!(!other.plugin_mode(&env));
    env.plugin_id = Some("p".to_string());
    assert!(other.plugin_mode(&env));
}

#[test]
fn every_refusal_has_its_words() {
    let cases = [
        (FaultKind::Usage, USAGE),
        (FaultKind::UnknownStatus, "状态必须是: working/idle/done/blocked/need_decision"),
        (FaultKind::StatusNeedsQuestion, "need_decision 必须提供需要拍板的问题"),
        (FaultKind::Unregistered, "未注册的项目: x（先 fleet register）"),
        (FaultKind::EmptyEvidence, "--evidence 不能为空"),
        (FaultKind::MissingValue, "x 后缺少参数"),
        (FaultKind::EmptySummary, "必须提供一行摘要"),
        (FaultKind::NothingToVerify, "项目 x 没有可验证的 claim"),
        (FaultKind::ClaimVanished, "claim 在验证期间被删除: x"),
        (FaultKind::BadEvidence, "claim evidence 格式无效"),
        (FaultKind::ForceNeedsNote, "--force 必须同时提供 --note，记录接受未验证风险的原因"),
        (FaultKind::NothingToAccept, "项目 x 没有可验收的 claim"),
        (FaultKind::NotDone, "只有 done claim 可以验收"),
        (
            FaultKind::NotVerified,
            "claim 尚未通过机器验证；先运行 fleet verify，或由用户明确授权 --force",
        ),
        (FaultKind::MissingOption, "--option 后必须提供内容"),
        (FaultKind::EmptyQuestion, "必须提供需要拍板的问题"),
        (FaultKind::EmptyAnswer, "必须提供用户的拍板答案"),
        (FaultKind::UnknownDecision, "找不到决策: x"),
        (FaultKind::AlreadyResolved, "决策已经解决: x"),
        (FaultKind::EmptyInstruction, "必须提供要转发给机长的指令"),
        (FaultKind::NoCommander, "项目 x 没有登记机长"),
        (FaultKind::NoSnapshot, "Herdr 未返回有效 snapshot"),
        (FaultKind::UnknownDelivery, "未知投递: x"),
        (FaultKind::NotLeased, "投递 x 尚未被管制员领取"),
        (FaultKind::AlreadyAcknowledged, "已确认的投递不能重新释放"),
        (FaultKind::NoTarget, "管制员没有可用的 Herdr target"),
        (FaultKind::DeliveryLost, "投递记录丢失: x"),
        (FaultKind::PromptFailed, "无法唤醒管制员 x"),
        (
            FaultKind::PluginWatch,
            "Plugin 模式由 Herdr startup/event hooks 维护实时状态，无需 fleet watch",
        ),
        (FaultKind::AlreadyWatching, "事件监听器已在运行（pid x）"),
        (FaultKind::StartFailed, "事件监听器启动失败；查看 x"),
        (FaultKind::StopFailed, "事件监听器没有及时停止"),
        (FaultKind::SocketClosed, "Herdr socket 已关闭"),
        (FaultKind::Reload, "reload"),
        (FaultKind::TopologyChanged, "topology changed"),
        (FaultKind::NoSessionSnapshot, "Herdr 未返回 session snapshot"),
        (FaultKind::Foreign, "x"),
    ];
    for (kind, words) in cases {
        assert_eq!(Fault::about(kind, "x").report(), words);
    }
    assert_eq!(Fault::about(FaultKind::BadSnapshot, "x").report(), "无法解析 Herdr 快照: x");
    assert_eq!(Fault::about(FaultKind::BadEvent, "x").report(), "HERDR_PLUGIN_EVENT_JSON 无效: x");
}

#[test]
fn the_claim_that_is_meant_is_found() {
    let mut claims = vec![
        json("{\"id\": \"1\", \"project\": \"a\"}"),
        json("{\"id\": \"2\", \"project\": \"b\"}"),
        json("{\"id\": \"3\", \"project\": \"a\"}"),
    ];
    assert_eq!(string(latest_claim(&claims, "a", None).unwrap(), "id"), "3");
    assert_eq!(string(latest_claim(&claims, "a", Some("1")).unwrap(), "id"), "1");
    assert!(latest_claim(&claims, "a", Some("2")).is_none());
    obj_mut(latest_claim_mut(&mut claims, "b", None).unwrap()).unwrap().put("x", Json::Null);
    assert!(claims[1].get("x").is_some());
    assert!(latest_claim_mut(&mut claims, "c", None).is_none());
}

#[test]
fn open_decisions_are_picked() {
    let decisions = vec![
        json("{\"id\": \"1\", \"project\": \"a\", \"state\": \"open\"}"),
        json("{\"id\": \"2\", \"project\": \"b\", \"state\": \"open\"}"),
        json("{\"id\": \"3\", \"project\": \"a\", \"state\": \"resolved\"}"),
    ];
    assert_eq!(open_decisions(&decisions, None).len(), 2);
    let own = open_decisions(&decisions, Some("a"));
    assert_eq!(own.len(), 1);
    assert_eq!(string(own[0], "id"), "1");
}

#[test]
fn projects_are_sorted_by_name() {
    let registry = json("{\"b\": 1, \"a\": 2}");
    let sorted = sorted_registry(registry.as_object().unwrap());
    assert_eq!(sorted[0].0, "a");
    assert!(sorted[0].1.equals(&Json::integer(2)));
    assert_eq!(sorted[1].0, "b");
}

#[test]
fn reading_a_registry_fills_it_in() {
    let mut state = State { dir: "/srv/state".to_string(), files: TextMap::new() };
    state.files.put(
        "fleets.json",
        "{\"a\": {\"status\": \"blocked\", \"claim_state\": \"odd\"}, \"b\": {\"status\": \"need_decision\", \"claim_state\": \"verified\"}}",
    );
    let registry = state.registry();
    let a = registry.get("a").unwrap();
    assert_eq!(string(a, "reported_status"), "blocked");
    assert!(matches!(a.get("claim_state"), Some(Json::Null)));
    let b = registry.get("b").unwrap();
    assert_eq!(string(b, "reported_status"), "idle");
    assert_eq!(string(b, "claim_state"), "verified");
    state.files.put("fleets.json", "[]");
    assert!(state.registry().is_empty());
}
