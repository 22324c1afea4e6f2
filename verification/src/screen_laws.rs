//! What the screen is for: it shows what waits for the user first, what is to
//! be looked at, every project with its crew, and what came in last.
use vstd::prelude::*;
use crate::attention::ClockV;
use crate::screen::{LineV, PieceV, Tone};
use crate::screen;
use crate::text;
use crate::ui::{AgentV, App, AttentionV, DecisionV, InboxV, MemberV, ProjectV};
use crate::ui;

verus! {

/// The words differ: in length, or in a letter.
proof fn lemma_words()
    ensures
        "done"@.len() == 4 && "done"@[0] == 'd',
        "idle"@.len() == 4 && "idle"@[0] == 'i',
        "user"@.len() == 4 && "user"@[0] == 'u',
        "blocked"@.len() == 7 && "blocked"@[0] == 'b',
        "offline"@.len() == 7 && "offline"@[0] == 'o',
        "working"@.len() == 7 && "working"@[0] == 'w',
        "accepted"@.len() == 8 && "accepted"@[0] == 'a',
        "reported"@.len() == 8 && "reported"@[0] == 'r',
        "verified"@.len() == 8 && "verified"@[0] == 'v',
        "need_decision"@.len() == 13,
{
    reveal_strlit("done");
    reveal_strlit("idle");
    reveal_strlit("user");
    reveal_strlit("blocked");
    reveal_strlit("offline");
    reveal_strlit("working");
    reveal_strlit("accepted");
    reveal_strlit("reported");
    reveal_strlit("verified");
    reveal_strlit("need_decision");
}


/// What goes well is green or blue, what does not is red, what waits for the
/// user is amber; what is idle is gray, and what is unknown dim.
pub proof fn law_tones(status: Seq<char>)
    ensures
        ({
            let tone = screen::tone_of(status);
            &&& tone == Tone::Green <==> status == "working"@
            &&& tone == Tone::Blue <==> status == "done"@ || status == "verified"@ || status
                == "accepted"@
            &&& tone == Tone::Red <==> status == "blocked"@ || status == "offline"@
            &&& tone == Tone::Amber <==> status == "need_decision"@ || status == "reported"@
            &&& tone == Tone::Gray <==> status == "idle"@
            &&& tone == Tone::Green || tone == Tone::Blue || tone == Tone::Red || tone
                == Tone::Amber || tone == Tone::Gray || tone == Tone::Dim
        }),
{
    lemma_words();
}

/// A stage of a completion: it is lit once it is reached, and stands out while
/// it is the last that was reached.
pub open spec fn is_stage(piece: PieceV, label: Seq<char>, lit: Tone, reached: bool, last: bool) -> bool {
    &&& piece.text == label
    &&& reached ==> piece.tone == Some(lit)
    &&& !reached ==> piece.tone == Some(Tone::Dim)
    &&& piece.bold == last
}

/// The path of a completion goes from the report over the verification to the
/// acceptance, and shows how far it has come.
pub proof fn law_path_shows_how_far(current: Option<Seq<char>>)
    ensures
        ({
            let path = screen::path_of(current);
            let reported = current == Some("reported"@);
            let verified = current == Some("verified"@);
            let accepted = current == Some("accepted"@);
            &&& path.len() == 5
            &&& is_stage(
                path[0],
                "机长声明"@,
                Tone::Amber,
                reported || verified || accepted,
                reported,
            )
            &&& is_stage(path[2], "机器验证"@, Tone::Blue, verified || accepted, verified)
            &&& is_stage(path[4], "用户验收"@, Tone::Blue, accepted, accepted)
            &&& path[1].text == "  →  "@ && path[3].text == "  →  "@
        }),
{
    lemma_words();
}

/// The agents of a status are counted one by one.
pub proof fn law_agents_are_counted(agents: Seq<AgentV>, agent: AgentV, status: Seq<char>)
    ensures
        ({
            let before = screen::count_with(agents, status);
            let after = screen::count_with(agents.push(agent), status);
            &&& screen::count_with(Seq::empty(), status) == 0
            &&& agent.agent_status == status ==> after == before + 1
            &&& agent.agent_status != status ==> after == before
        }),
{
    assert(agents.push(agent).drop_last() =~= agents);
}

/// The headline counts the projects, the agents at work and those that are
/// blocked, and what is to be looked at; it tells when the state was last
/// reconciled, or why it is not.
pub proof fn law_headline_counts(app: App, clock: ClockV)
    ensures
        ({
            let line = screen::headline(app, clock);
            let agents = ui::agent_views(app.agents@);
            let calls = app.attention@.len();
            &&& line.len() == 7
            &&& line[0].text == "HERDR COORDINATOR"@
            &&& line[1].text == "  "@ + ui::time_of_day(Some(clock.text))
            &&& line[2].text == "   "@ + text::digits(app.projects@.len()) + " 个项目"@
            &&& line[3].text == "   ● "@ + text::digits(
                screen::count_with(agents, "working"@),
            ) + " 进行中"@
            &&& line[4].text == "   ● "@ + text::digits(
                screen::count_with(agents, "blocked"@),
            ) + " 受阻"@
            &&& line[5].text == "   "@ + text::digits(calls) + " 项待介入"@
            &&& calls == 0 ==> line[5].tone == Some(Tone::Green)
            &&& calls > 0 ==> line[5].tone == Some(Tone::Amber)
            &&& app.connected ==> line[6].text == "   已对账 "@ + app.synced_at@
                && line[6].tone == Some(Tone::Dim)
            &&& !app.connected && app.error is Some ==> line[6].text == "   ⚠ "@ + app.error->0@
                && line[6].tone == Some(Tone::Red)
            &&& !app.connected && app.error is None ==> line[6].text == "   ⚠ "@
                + "尚未对账"@ && line[6].tone == Some(Tone::Red)
        }),
{
}

/// Every decision takes two lines: its project, its question and its age, then
/// its options and its identifier.
pub proof fn law_decisions_take_two_lines(
    decisions: Seq<DecisionV>,
    count: int,
    clock: ClockV,
    k: int,
)
    requires
        0 <= k < count <= decisions.len(),
    ensures
        ({
            let lines = screen::decision_lines(decisions, count, clock);
            let (first, second) = (lines[2 * k], lines[2 * k + 1]);
            let decision = decisions[k];
            &&& lines.len() == 2 * count
            &&& first.len() == 3
            &&& first[0].text == decision.project + "  "@
            &&& first[1].text == decision.question
            &&& first[2].text == "  "@ + ui::ago_of(decision.created_at, clock.moment)
            &&& second.len() == 2
            &&& decision.options.len() == 0 ==> second[0].text == "    "@ + "未提供预设选项"@
            &&& decision.options.len() > 0 ==> second[0].text == "    "@ + text::joined(
                decision.options,
                "  /  "@,
            )
            &&& second[1].text == "   ["@ + decision.id + "]"@
        }),
    decreases count,
{
    lemma_decision_count(decisions, count - 1, clock);
    let rest = screen::decision_lines(decisions, count - 1, clock);
    let lines = screen::decision_lines(decisions, count, clock);
    if k < count - 1 {
        law_decisions_take_two_lines(decisions, count - 1, clock, k);
        assert(lines[2 * k] == rest[2 * k] && lines[2 * k + 1] == rest[2 * k + 1]);
    }
}

proof fn lemma_decision_count(decisions: Seq<DecisionV>, count: int, clock: ClockV)
    requires
        0 <= count,
    ensures
        screen::decision_lines(decisions, count, clock).len() == 2 * count,
    decreases count,
{
    if count > 0 {
        lemma_decision_count(decisions, count - 1, clock);
    }
}

/// Every call for attention takes two lines: its urgency, its project, its
/// reason and who is to act, then what is to be done. No more than four are
/// shown, the most urgent first; where there is none, a line says so.
pub proof fn law_calls_take_two_lines(items: Seq<AttentionV>, k: int)
    ensures
        ({
            let lines = screen::attention_lines(items);
            let shown: int = if items.len() <= 4 {
                items.len() as int
            } else {
                4
            };
            let (first, second) = (lines[2 * k], lines[2 * k + 1]);
            let item = items[k];
            &&& items.len() == 0 ==> lines.len() == 1 && lines[0].len() == 2 && lines[0][1].text
                == " 当前无需人工介入"@
            &&& items.len() > 0 ==> lines.len() == 2 * shown
            &&& 0 <= k < shown ==> {
                &&& first.len() == 4
                &&& first[0].text == "P"@ + text::padded(text::signed_digits(item.priority), 3)
                &&& item.priority >= 90 ==> first[0].tone == Some(Tone::Red)
                &&& item.priority < 90 ==> first[0].tone == Some(Tone::Amber)
                &&& first[1].text == text::padded(item.project, 14)
                &&& first[2].text == item.reason
                &&& item.required_actor == "user"@ ==> first[3].text == "  → "@ + "你"@
                &&& item.required_actor != "user"@ ==> first[3].text == "  → "@ + "塔台"@
                &&& second.len() == 1
                &&& second[0].text == "      "@ + item.action
            }
        }),
{
    if items.len() > 0 {
        let shown: int = if items.len() <= 4 {
            items.len() as int
        } else {
            4
        };
        lemma_pairs(items, shown, k);
    }
}

proof fn lemma_pairs(items: Seq<AttentionV>, count: int, k: int)
    requires
        0 <= count <= items.len(),
    ensures
        ({
            let lines = screen::attention_pairs(items, count);
            &&& lines.len() == 2 * count
            &&& 0 <= k < count ==> lines[2 * k] == screen::attention_first(items[k]) && lines[2
                * k + 1] == screen::attention_second(items[k])
        }),
    decreases count,
{
    if count > 0 {
        lemma_pairs(items, count - 1, k);
        let rest = screen::attention_pairs(items, count - 1);
        let lines = screen::attention_pairs(items, count);
        if 0 <= k < count - 1 {
            assert(lines[2 * k] == rest[2 * k] && lines[2 * k + 1] == rest[2 * k + 1]);
        }
    }
}

/// Every project is shown in its place, with its crew where it is unfolded;
/// where there is none, a line tells how to register one.
pub proof fn law_every_project_is_shown(
    projects: Seq<ProjectV>,
    expanded: Seq<Seq<char>>,
    clock: ClockV,
    k: int,
)
    ensures
        ({
            let items = screen::project_items(projects, expanded, clock);
            &&& projects.len() == 0 ==> items.len() == 1 && items[0].len() == 1
                && items[0][0].len() == 1 && items[0][0][0].text
                == "尚未登记项目。使用 fleet register 绑定现有项目和唯一机长。"@
            &&& projects.len() > 0 ==> items.len() == projects.len()
            &&& 0 <= k < projects.len() ==> items[k] == screen::project_lines(
                projects[k],
                expanded.contains(projects[k].name),
                clock,
            )
        }),
{
}

/// A project is shown by its name, its status, its commander, what is seen of
/// it, its age and its note; then by the path of its completion, by a warning
/// where its commander is offline, and by its crew.
pub proof fn law_project_is_drawn(project: ProjectV, expanded: bool, clock: ClockV)
    ensures
        ({
            let lines = screen::project_lines(project, expanded, clock);
            let head = lines[0];
            let entry = project.entry;
            let off: int = if project.commander_offline {
                1
            } else {
                0
            };
            let crew = screen::member_lines(project.members, expanded);
            &&& head.len() == if entry.note.len() > 0 {
                7int
            } else {
                6int
            }
            &&& head[0].text == text::padded(project.name, 16)
            &&& head[1].tone == Some(screen::tone_of(project.status))
            &&& head[2].text == " "@ + ui::label_of(project.status)
            &&& head[2].tone == Some(screen::tone_of(project.status))
            &&& head[3].text == "   机长 "@ + entry.commander
            &&& head[4].text == "   实时 "@ + ui::label_of(project.live_status)
            &&& head[4].tone == Some(screen::tone_of(project.live_status))
            &&& head[5].text == "   "@ + ui::ago_of(entry.updated_at, clock.moment)
            &&& entry.note.len() > 0 ==> head[6].text == "   — "@ + entry.note
            &&& lines[1].len() == 6
            &&& lines[1][0].text == "    完成路径  "@
            &&& lines[1].skip(1) == screen::path_of(entry.claim_state)
            &&& project.commander_offline ==> lines[2].len() == 1 && lines[2][0].text
                == "    ⚠ 机长 "@ + entry.commander + " 当前离线"@ && lines[2][0].tone == Some(
                Tone::Red,
            )
            &&& lines.len() == 2 + off + crew.len() + 1
            &&& lines.subrange(2 + off, 2 + off + crew.len()) == crew
            &&& lines.last().len() == 0
        }),
{
    let lines = screen::project_lines(project, expanded, clock);
    let off: int = if project.commander_offline {
        1
    } else {
        0
    };
    let crew = screen::member_lines(project.members, expanded);
    law_path_shows_how_far(project.entry.claim_state);
    assert(lines[1].skip(1) =~= screen::path_of(project.entry.claim_state));
    assert(lines.subrange(2 + off, 2 + off + crew.len()) =~= crew);
}

/// The crew of an unfolded project takes a line each, with role, status and
/// name; that of a folded one shares a line, with role and status.
pub proof fn law_crew_is_drawn(members: Seq<MemberV>, k: int)
    ensures
        ({
            let open = screen::member_lines(members, true);
            let shut = screen::member_lines(members, false);
            &&& open.len() == members.len()
            &&& shut.len() == 1
            &&& members.len() == 0 ==> shut[0].len() == 2 && shut[0][1].text == "没有存活成员"@
            &&& members.len() > 0 ==> shut[0].len() == 3 * members.len() + 1
            &&& 0 <= k < members.len() ==> {
                let line = open[k];
                &&& line.len() == 5
                &&& line[1].tone == Some(screen::tone_of(members[k].status))
                &&& line[2].text == " "@ + text::padded(members[k].role, 12)
                &&& line[3].text == text::padded(ui::label_of(members[k].status), 8)
                &&& line[4].text == members[k].name
                &&& shut[0][3 * k + 1].text == members[k].role + " "@
                &&& shut[0][3 * k + 2].tone == Some(screen::tone_of(members[k].status))
            }
        }),
{
    lemma_marks(members, members.len() as int, k);
}

proof fn lemma_marks(members: Seq<MemberV>, count: int, k: int)
    requires
        0 <= count <= members.len(),
    ensures
        ({
            let line = screen::member_marks(members, count);
            &&& line.len() == 3 * count + 1
            &&& 0 <= k < count ==> line[3 * k + 1].text == members[k].role + " "@ && line[3 * k
                + 2].tone == Some(screen::tone_of(members[k].status))
        }),
    decreases count,
{
    if count > 0 {
        lemma_marks(members, count - 1, k);
        let rest = screen::member_marks(members, count - 1);
        let line = screen::member_marks(members, count);
        if 0 <= k < count - 1 {
            assert(line[3 * k + 1] == rest[3 * k + 1] && line[3 * k + 2] == rest[3 * k + 2]);
        }
    }
}

/// What came in last stands first: up to four entries, those behind the cursor
/// marked as unread.
pub proof fn law_last_entries_are_drawn(items: Seq<InboxV>, cursor: int, k: int)
    ensures
        ({
            let lines = screen::inbox_lines(items, cursor);
            let shown: int = if items.len() <= 4 {
                items.len() as int
            } else {
                4
            };
            let at = items.len() - 1 - k;
            let (item, line) = (items[at], lines[k]);
            let time = text::between_bytes(item.ts, 11, 16);
            &&& items.len() == 0 ==> lines.len() == 1 && lines[0].len() == 1 && lines[0][0].text
                == "暂无汇报"@
            &&& items.len() > 0 ==> lines.len() == shown
            &&& 0 <= k < shown ==> {
                &&& line.len() == 5
                &&& at >= cursor ==> line[0].text == "● "@ && line[4].tone == Some(
                    Tone::Foreground,
                )
                &&& at < cursor ==> line[0].text == "  "@ && line[4].tone == Some(Tone::Gray)
                &&& time is Some ==> line[1].text == time->0
                &&& time is None ==> line[1].text == "--:--"@
                &&& line[2].text == "  "@ + text::padded(item.project, 14)
                &&& line[3].tone == Some(screen::tone_of(item.status))
                &&& line[4].text == " "@ + item.summary
            }
        }),
{
}

/// The parts of the screen are as high as what they show, with their frames.
pub proof fn law_rooms_hold_what_is_shown(count: nat, cursor: nat, message: Seq<char>)
    ensures
        screen::decision_room(0) == 0,
        1 <= count <= 3 ==> screen::decision_room(count) == 2 * count + 2,
        count > 3 ==> screen::decision_room(count) == 8,
        screen::attention_room(0) == 3,
        1 <= count <= 4 ==> screen::attention_room(count) == 2 * count + 2,
        count > 4 ==> screen::attention_room(count) == 10,
        screen::inbox_room(0) == 3,
        1 <= count <= 4 ==> screen::inbox_room(count) == count + 2,
        count > 4 ==> screen::inbox_room(count) == 6,
        cursor <= count ==> screen::unread_count(count, cursor) + cursor == count,
        cursor > count ==> screen::unread_count(count, cursor) == 0,
        message.len() > 0 ==> text::has_suffix(
            screen::footer_of(message),
            "   │ "@ + message,
        ),
        message.len() == 0 ==> screen::footer_of(message)
            == "↑↓/jk 选择   Enter 展开   r 对账   a 重建注意力   m 全部已读   q 关闭"@,
{
    let keys = "↑↓/jk 选择   Enter 展开   r 对账   a 重建注意力   m 全部已读   q 关闭"@;
    crate::text_laws::law_parts_of_a_text(keys, "   │ "@ + message, Seq::empty());
    if message.len() == 0 {
        assert(keys + Seq::<char>::empty() =~= keys);
    }
}

/// The height of a project is the number of its lines.
pub proof fn law_heights_are_of_the_lines(items: Seq<Seq<LineV>>, k: int)
    requires
        0 <= k < items.len(),
        items[k].len() < 65536,
    ensures
        screen::heights_of(items).len() == items.len(),
        screen::heights_of(items)[k] == items[k].len(),
{
}

} // verus!
