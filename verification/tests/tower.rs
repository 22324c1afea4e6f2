use herdr_coordinator::attention::Clock;
use herdr_coordinator::json::Json;
use herdr_coordinator::outside::parse_json;
use herdr_coordinator::screen::{claim_path, draw, rgb, status_color, Piece, Tone};
use herdr_coordinator::ui::{
    ago, item_at, on_char, rebuild_message, reconcile_message, status_label, Agent, App,
    Attention, Decision, Documents, Fleet, FleetEntry, Gesture, Inbox,
};

fn json(text: &str) -> Json {
    parse_json(text).unwrap()
}

fn strings(values: &[&str]) -> Vec<String> {
    values.iter().map(|value| value.to_string()).collect()
}

fn before(seconds: i64) -> String {
    (chrono::Local::now() - chrono::Duration::seconds(seconds))
        .format("%Y-%m-%d %H:%M:%S")
        .to_string()
}

fn fleet(name: &str, commander: &str, cwd: &str) -> Fleet {
    Fleet {
        name: name.to_string(),
        entry: FleetEntry {
            commander: commander.to_string(),
            cwd: cwd.to_string(),
            status: "working".to_string(),
            reported_status: "working".to_string(),
            note: String::new(),
            updated_at: before(120),
            claim_state: Some("verified".to_string()),
        },
    }
}

fn agent(name: &str, status: &str, cwd: &str) -> Agent {
    Agent {
        name: Some(name.to_string()),
        agent_status: status.to_string(),
        cwd: Some(cwd.to_string()),
    }
}

fn documents(runtime: &str) -> Documents {
    Documents {
        fleets: vec![fleet("a", "a-cmd", "/a"), fleet("b", "boss", "/b")],
        decisions: vec![
            Decision {
                id: "q1".to_string(),
                project: "a".to_string(),
                state: "open".to_string(),
                question: "go?".to_string(),
                options: strings(&["yes", "no"]),
                created_at: before(5),
            },
            Decision {
                id: "q0".to_string(),
                project: "a".to_string(),
                state: "resolved".to_string(),
                question: "old".to_string(),
                options: vec![],
                created_at: before(5),
            },
        ],
        attention: vec![Attention {
            project: "a".to_string(),
            priority: 100,
            reason: "go?".to_string(),
            required_actor: "user".to_string(),
            action: "fleet resolve".to_string(),
        }],
        inbox: vec![
            Inbox {
                ts: "2026-08-25 10:11:12".to_string(),
                project: "a".to_string(),
                status: "done".to_string(),
                summary: "first".to_string(),
            },
            Inbox {
                ts: "soon".to_string(),
                project: "b".to_string(),
                status: "idle".to_string(),
                summary: "second".to_string(),
            },
        ],
        agents: vec![
            agent("a-rev", "idle", "/x"),
            agent("a-worker", "", "/b"),
            agent("boss", "working", "/y"),
            agent("helper", "blocked", "/b"),
            agent("a-cmd", "working", "/a"),
            agent("stray", "idle", "/z"),
        ],
        records: vec![json("{\"project\": \"a\", \"state\": \"open\"}")],
        runtime: json(runtime),
        cursor: Some(" 1\n".to_string()),
    }
}

const RUNTIME: &str = "{\"connected\": true, \"updated_at\": \"2026-08-25 10:11:12\",
    \"projects\": {\"a\": {\"live_status\": \"idle\"}}}";

fn text(line: &[Piece]) -> String {
    line.iter().map(|piece| piece.text.as_str()).collect()
}

#[test]
fn agents_go_to_one_project_and_the_commander_stands_first() {
    let mut app = App::new("/srv/state");
    assert_eq!(app.load(documents(RUNTIME), None), Some(0));
    let names: Vec<&str> = app.projects[0].members.iter().map(|m| m.name.as_str()).collect();
    assert_eq!(names, vec!["a-cmd", "a-rev", "a-worker"]);
    let roles: Vec<&str> = app.projects[0].members.iter().map(|m| m.role.as_str()).collect();
    assert_eq!(roles, vec!["机长", "副机长", "乘务 worker"]);
    assert_eq!(app.projects[0].members[2].status, "unknown");
    let names: Vec<&str> = app.projects[1].members.iter().map(|m| m.name.as_str()).collect();
    assert_eq!(names, vec!["boss", "helper"]);
    assert_eq!(app.projects[1].members[1].role, "乘务 helper");
    assert_eq!(app.projects[0].status, "need_decision");
    assert_eq!(app.projects[1].status, "working");
    assert_eq!(app.projects[0].live_status, "idle");
    assert_eq!(app.projects[1].live_status, "unknown");
    assert_eq!(app.decisions.len(), 1);
    assert_eq!(app.cursor, 1);
    assert_eq!(app.synced_at, "10:11:12");
}

#[test]
fn without_a_connection_no_agent_is_there() {
    let mut app = App::new("/srv/state");
    app.load(documents("{\"error\": \"gone\"}"), Some(9));
    assert!(app.agents.is_empty());
    assert!(app.projects[0].commander_offline);
    assert_eq!(app.error, Some("gone".to_string()));
    assert_eq!(app.synced_at, "--:--:--");
}

#[test]
fn projects_come_in_the_order_of_their_names() {
    let mut given = documents(RUNTIME);
    assert!(given.is_ordered());
    given.fleets.swap(0, 1);
    assert!(!given.is_ordered());
    given.fleets = vec![fleet("a", "x", "/x"), fleet("a", "y", "/y")];
    assert!(!given.is_ordered());
    given.fleets = vec![];
    assert!(given.is_ordered());
}

#[test]
fn the_selection_stays_within_the_list() {
    let mut app = App::new("/srv/state");
    assert_eq!(app.load(documents(RUNTIME), Some(1)), Some(1));
    assert_eq!(app.load(documents(RUNTIME), Some(2)), Some(0));
    let mut none = documents(RUNTIME);
    none.fleets = vec![];
    assert_eq!(app.load(none, Some(1)), None);
}

#[test]
fn members_are_shown_and_hidden() {
    let mut app = App::new("/srv/state");
    app.load(documents(RUNTIME), None);
    app.expand_all();
    assert_eq!(app.expanded, strings(&["a", "b"]));
    app.toggle(Some(0));
    assert_eq!(app.expanded, strings(&["b"]));
    app.toggle(Some(0));
    assert_eq!(app.expanded, strings(&["b", "a"]));
    app.toggle(None);
    app.toggle(Some(5));
    assert_eq!(app.expanded.len(), 2);
}

#[test]
fn reading_the_inbox_is_noted_once_written() {
    let mut app = App::new("/srv/state");
    app.load(documents(RUNTIME), None);
    assert_eq!(app.read_cursor(), "2");
    app.mark_read(false);
    assert_eq!(app.cursor, 1);
    app.mark_read(true);
    assert_eq!(app.cursor, 2);
    assert_eq!(app.message, "收件箱已读");
}

#[test]
fn rows_belong_to_items() {
    let heights = [2, 3, 1];
    assert_eq!(item_at(&heights, 0, 10, 8, 10), None);
    assert_eq!(item_at(&heights, 0, 10, 8, 11), Some(0));
    assert_eq!(item_at(&heights, 0, 10, 8, 12), Some(0));
    assert_eq!(item_at(&heights, 0, 10, 8, 13), Some(1));
    assert_eq!(item_at(&heights, 0, 10, 8, 16), Some(2));
    assert_eq!(item_at(&heights, 0, 10, 8, 17), None);
    assert_eq!(item_at(&heights, 1, 10, 8, 11), Some(1));
    assert_eq!(item_at(&heights, 2, 10, 8, 12), None);
    assert_eq!(item_at(&heights, 7, 10, 8, 12), None);
}

#[test]
fn keys_have_their_meaning() {
    assert_eq!(on_char('q'), Gesture::Quit);
    assert_eq!(on_char('k'), Gesture::Previous);
    assert_eq!(on_char('j'), Gesture::Next);
    assert_eq!(on_char('r'), Gesture::Reconcile);
    assert_eq!(on_char('a'), Gesture::Rebuild);
    assert_eq!(on_char('m'), Gesture::MarkRead);
    assert_eq!(on_char('x'), Gesture::Nothing);
    assert_eq!(reconcile_message(None), "已重新对账");
    assert_eq!(reconcile_message(Some("x")), "对账失败：x");
    assert_eq!(rebuild_message(None), "注意力队列已重建");
    assert_eq!(rebuild_message(Some("x")), "重建失败：x");
}

#[test]
fn times_are_put_in_words() {
    assert_eq!(ago("never"), "0秒前");
    assert_eq!(ago(&before(150)), "2分钟前");
    assert_eq!(ago(&before(7300)), "2小时前");
    assert_eq!(ago(&before(3 * 86400 + 60)), "3天前");
}

#[test]
fn statuses_have_labels_and_colours() {
    let cases = [
        ("working", "进行中", Tone::Green),
        ("idle", "空闲", Tone::Gray),
        ("done", "已完成", Tone::Blue),
        ("blocked", "受阻", Tone::Red),
        ("need_decision", "等你拍板", Tone::Amber),
        ("offline", "离线", Tone::Red),
        ("reported", "机长声明", Tone::Amber),
        ("verified", "机器已验证", Tone::Blue),
        ("accepted", "用户已验收", Tone::Blue),
        ("other", "未知", Tone::Dim),
    ];
    for (status, label, tone) in cases {
        assert_eq!(status_label(status), label);
        assert_eq!(status_color(status), tone);
    }
    assert_eq!(rgb(Tone::Green), (80, 226, 92));
    assert_eq!(rgb(Tone::Background), (0, 0, 0));
}

#[test]
fn the_way_of_a_claim_is_drawn() {
    let path = claim_path(Some("verified"));
    assert_eq!(text(&path), "机长声明  →  机器验证  →  用户验收");
    assert_eq!(path[0].tone, Some(Tone::Amber));
    assert!(!path[0].bold);
    assert_eq!(path[2].tone, Some(Tone::Blue));
    assert!(path[2].bold);
    assert_eq!(path[4].tone, Some(Tone::Dim));
    assert!(claim_path(None).iter().all(|piece| piece.tone == Some(Tone::Dim) && !piece.bold));
}

#[test]
fn the_tower_is_drawn() {
    let mut app = App::new("/srv/state");
    app.load(documents(RUNTIME), None);
    app.toggle(Some(1));
    app.message = "ok".to_string();
    let clock = Clock { text: "2026-08-25 12:13:14".to_string(), moment: Clock::read().moment };
    let screen = draw(&app, &clock);
    assert_eq!(
        text(&screen.headline),
        "HERDR COORDINATOR  12:13:14   2 个项目   ● 2 进行中   ● 1 受阻   1 项待介入   已对账 10:11:12"
    );
    assert_eq!(screen.place, "状态目录  /srv/state");
    assert_eq!(screen.decision_height, 4);
    assert_eq!(screen.decision_title, " 等你拍板 ");
    assert!(text(&screen.decisions[0]).starts_with("a  go?  "));
    assert_eq!(text(&screen.decisions[1]), "    yes  /  no   [q1]");
    assert_eq!(screen.attention_height, 4);
    assert_eq!(screen.attention_title, " 需要介入 · 1 ");
    assert_eq!(text(&screen.attention[0]), "P100a             go?  → 你");
    assert_eq!(screen.attention[0][0].tone, Some(Tone::Red));
    assert_eq!(text(&screen.attention[1]), "      fleet resolve");
    assert_eq!(
        text(&screen.projects[0][0]),
        "a               ● 等你拍板   机长 a-cmd   实时 空闲   2分钟前"
    );
    assert_eq!(text(&screen.projects[0][1]), "    完成路径  机长声明  →  机器验证  →  用户验收");
    assert_eq!(text(&screen.projects[0][2]), "    机长 ●    副机长 ●    乘务 worker ●    ");
    assert_eq!(screen.projects[0][3].len(), 0);
    assert_eq!(text(&screen.projects[1][2]), "    ● 机长          进行中     boss");
    assert_eq!(screen.project_heights, vec![4, 5]);
    assert_eq!(screen.inbox_height, 4);
    assert_eq!(screen.inbox_title, " 最近事件 · 1 未读 ");
    assert_eq!(text(&screen.inbox[0]), "● --:--  b             ● second");
    assert_eq!(text(&screen.inbox[1]), "  10:11  a             ● first");
    assert!(screen.footer.ends_with("q 关闭   │ ok"));
}

#[test]
fn an_empty_tower_is_drawn() {
    let app = App::new("/srv/state");
    let screen = draw(&app, &Clock::read());
    assert!(text(&screen.headline).ends_with("   0 项待介入   ⚠ 尚未对账"));
    assert_eq!(screen.decision_height, 0);
    assert_eq!(screen.attention_height, 3);
    assert_eq!(text(&screen.attention[0]), "● 当前无需人工介入");
    assert_eq!(
        text(&screen.projects[0][0]),
        "尚未登记项目。使用 fleet register 绑定现有项目和唯一机长。"
    );
    assert_eq!(screen.project_heights, vec![1]);
    assert_eq!(screen.inbox_height, 3);
    assert_eq!(screen.inbox_title, " 最近事件 ");
    assert_eq!(text(&screen.inbox[0]), "暂无汇报");
    assert!(screen.footer.ends_with("q 关闭"));
}
