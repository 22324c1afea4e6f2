//! What the control tower is for: who belongs to a project, what it stands at,
//! and what is chosen and unfolded on the screen.
use vstd::prelude::*;
use crate::attention;
use crate::json::JsonV;
use crate::order;
use crate::queue_laws;
use crate::text;
use crate::ui::{AgentV, DecisionV, Fleet, FleetV, MemberV};
use crate::ui;

verus! {

/// The words differ: in length, or in a letter.
proof fn lemma_words()
    ensures
        "cwd"@.len() == 3,
        "done"@.len() == 4 && "done"@[0] == 'd',
        "idle"@.len() == 4 && "idle"@[0] == 'i',
        "note"@.len() == 4 && "note"@[0] == 'n',
        "status"@.len() == 6,
        "blocked"@.len() == 7 && "blocked"@[0] == 'b',
        "offline"@.len() == 7 && "offline"@[0] == 'o',
        "working"@.len() == 7 && "working"@[0] == 'w',
        "accepted"@.len() == 8 && "accepted"@[0] == 'a',
        "reported"@.len() == 8 && "reported"@[0] == 'r',
        "verified"@.len() == 8 && "verified"@[0] == 'v',
        "commander"@.len() == 9,
        "updated_at"@.len() == 10,
        "claim_state"@.len() == 11,
        "need_decision"@.len() == 13,
        "reported_status"@.len() == 15,
{
    reveal_strlit("cwd");
    reveal_strlit("done");
    reveal_strlit("idle");
    reveal_strlit("note");
    reveal_strlit("status");
    reveal_strlit("blocked");
    reveal_strlit("offline");
    reveal_strlit("working");
    reveal_strlit("accepted");
    reveal_strlit("reported");
    reveal_strlit("verified");
    reveal_strlit("commander");
    reveal_strlit("updated_at");
    reveal_strlit("claim_state");
    reveal_strlit("need_decision");
    reveal_strlit("reported_status");
}


/// An agent is one of the crew of a project: its commander, or called after the
/// project, or at work in its directory.
pub open spec fn is_crew(project: Seq<char>, entry: FleetV, agent: AgentV) -> bool {
    &&& agent.name is Some
    &&& {
        ||| agent.name == Some(entry.commander)
        ||| text::has_prefix(agent.name->0, project + "-"@)
        ||| entry.cwd.len() > 0 && agent.cwd == Some(entry.cwd)
    }
}

/// A member is shown for an agent, with its role and its status.
pub open spec fn shows(
    member: MemberV,
    project: Seq<char>,
    entry: FleetV,
    agent: AgentV,
) -> bool {
    let name = agent.name->0;
    let officer = text::occurs(name, "-rev"@);
    let own = text::has_prefix(name, project + "-"@);
    &&& member.name == name
    &&& name == entry.commander ==> member.role == "机长"@
    &&& name != entry.commander && officer ==> member.role == "副机长"@
    &&& name != entry.commander && !officer && own ==> member.role == "乘务 "@ + name.skip(
        (project + "-"@).len() as int,
    )
    &&& name != entry.commander && !officer && !own ==> member.role == "乘务 "@ + name
    &&& agent.agent_status.len() > 0 ==> member.status == agent.agent_status
    &&& agent.agent_status.len() == 0 ==> member.status == "unknown"@
}

/// The first of the crew that goes by a name.
pub open spec fn is_first_crew(
    project: Seq<char>,
    entry: FleetV,
    agents: Seq<AgentV>,
    i: int,
) -> bool {
    &&& 0 <= i < agents.len()
    &&& is_crew(project, entry, agents[i])
    &&& forall|n: int|
        0 <= n < i && is_crew(project, entry, #[trigger] agents[n]) ==> agents[n].name
            != agents[i].name
}

proof fn lemma_crew(
    project: Seq<char>,
    entry: FleetV,
    agents: Seq<AgentV>,
    count: int,
    claimed: Seq<Seq<char>>,
)
    requires
        0 <= count <= agents.len(),
    ensures
        ({
            let found = ui::members_among(project, entry, agents, count, claimed);
            &&& forall|name: Seq<char>| #[trigger]
                found.claimed.contains(name) <==> claimed.contains(name) || is_named(
                    found.members,
                    name,
                )
            &&& forall|k: int|
                0 <= k < found.members.len() ==> is_found(
                    #[trigger] found.members[k],
                    project,
                    entry,
                    agents.take(count),
                    claimed,
                )
            &&& forall|i: int|
                0 <= i < count && is_crew(project, entry, #[trigger] agents[i])
                    && !claimed.contains(agents[i].name->0) ==> is_named(
                    found.members,
                    agents[i].name->0,
                )
            &&& found.online <==> is_named(found.members, entry.commander)
        }),
    decreases count,
{
    let found = ui::members_among(project, entry, agents, count, claimed);
    if count > 0 {
        let rest = ui::members_among(project, entry, agents, count - 1, claimed);
        lemma_crew(project, entry, agents, count - 1, claimed);
        let agent = agents[count - 1];
        let name = agent.name->0;
        assert(ui::belongs(project, entry, agent) == is_crew(project, entry, agent));
        let (part, less) = (agents.take(count), agents.take(count - 1));
        assert(part =~= less.push(agent));
        let taken = is_crew(project, entry, agent) && !rest.claimed.contains(name);
        assert forall|n: Seq<char>| #[trigger]
            found.claimed.contains(n) <==> claimed.contains(n) || is_named(found.members, n) by {
            lemma_named_push(rest.members, ui::member_of(project, entry, agent), n);
            if taken {
                lemma_contains_push(rest.claimed, name, n);
            }
        }
        assert forall|k: int| 0 <= k < found.members.len() implies is_found(
            #[trigger] found.members[k],
            project,
            entry,
            part,
            claimed,
        ) by {
            if k < rest.members.len() {
                assert(found.members[k] == rest.members[k]);
                assert(is_found(rest.members[k], project, entry, less, claimed));
                let i = choose|i: int| #[trigger]
                    is_first_crew(project, entry, less, i) && !claimed.contains(
                        less[i].name->0,
                    ) && shows(rest.members[k], project, entry, less[i]);
                assert(part[i] == less[i]);
                assert forall|n: int|
                    0 <= n < i && is_crew(project, entry, #[trigger] part[n]) implies part[n].name
                    != part[i].name by {
                    assert(less[n] == part[n]);
                }
                assert(is_first_crew(project, entry, part, i));
            } else {
                assert(part[count - 1] == agent);
                assert forall|n: int|
                    0 <= n < count - 1 && is_crew(
                        project,
                        entry,
                        #[trigger] part[n],
                    ) implies part[n].name != agent.name by {
                    assert(agents[n] == part[n]);
                    if part[n].name == agent.name {
                        assert(!claimed.contains(name));
                        assert(is_named(rest.members, name));
                        assert(rest.claimed.contains(name));
                    }
                }
                assert(is_first_crew(project, entry, part, count - 1));
                assert(!claimed.contains(name));
            }
        }
        assert forall|i: int|
            0 <= i < count && is_crew(project, entry, #[trigger] agents[i]) && !claimed.contains(
                agents[i].name->0,
            ) implies is_named(found.members, agents[i].name->0) by {
            lemma_named_push(
                rest.members,
                ui::member_of(project, entry, agent),
                agents[i].name->0,
            );
            if i == count - 1 && !taken {
                assert(rest.claimed.contains(name));
            }
        }
        lemma_named_push(
            rest.members,
            ui::member_of(project, entry, agent),
            entry.commander,
        );
    }
}

/// A member goes by a name.
pub open spec fn is_named(members: Seq<MemberV>, name: Seq<char>) -> bool {
    exists|k: int| 0 <= k < members.len() && (#[trigger] members[k]).name == name
}

/// A member is that of an agent: the first of the crew with its name, whom no
/// other project has.
pub open spec fn is_found(
    member: MemberV,
    project: Seq<char>,
    entry: FleetV,
    agents: Seq<AgentV>,
    claimed: Seq<Seq<char>>,
) -> bool {
    exists|i: int| #[trigger]
        is_first_crew(project, entry, agents, i) && !claimed.contains(agents[i].name->0) && shows(
            member,
            project,
            entry,
            agents[i],
        )
}

proof fn lemma_named_push(members: Seq<MemberV>, member: MemberV, name: Seq<char>)
    ensures
        is_named(members.push(member), name) == (is_named(members, name) || member.name == name),
{
    let more = members.push(member);
    assert(more[members.len() as int] == member);
    if is_named(members, name) {
        let k = choose|k: int| 0 <= k < members.len() && (#[trigger] members[k]).name == name;
        assert(more[k] == members[k]);
    }
    if is_named(more, name) {
        let k = choose|k: int| 0 <= k < more.len() && (#[trigger] more[k]).name == name;
        if k < members.len() {
            assert(members[k] == more[k]);
        }
    }
}

proof fn lemma_contains_push(names: Seq<Seq<char>>, last: Seq<char>, name: Seq<char>)
    ensures
        names.push(last).contains(name) == (names.contains(name) || name == last),
{
    let more = names.push(last);
    assert(more[names.len() as int] == last);
    if names.contains(name) {
        let k = choose|k: int| 0 <= k < names.len() && names[k] == name;
        assert(more[k] == name);
    }
    if more.contains(name) && name != last {
        let k = choose|k: int| 0 <= k < more.len() && more[k] == name;
        assert(names[k] == name);
    }
}

proof fn lemma_sorted_named(members: Seq<MemberV>, member: MemberV)
    ensures
        order::arranged(members, ui::stands_before()).contains(member) == members.contains(member),
{
    broadcast use vstd::seq_lib::group_to_multiset_ensures;

    let sorted = order::arranged(members, ui::stands_before());
    order::lemma_arranged_same_values(members, ui::stands_before());
    assert(sorted.to_multiset().count(member) == members.to_multiset().count(member));
}

/// Every agent of the crew that no project before has is shown with the
/// project, and every member that is shown is one of them, with its role and
/// its status. The commander is offline if and only if nobody goes by its name.
pub proof fn law_crew_is_shown(
    name: Seq<char>,
    entry: FleetV,
    agents: Seq<AgentV>,
    decisions: Seq<JsonV>,
    runtime: JsonV,
    claimed: Seq<Seq<char>>,
    i: int,
    k: int,
)
    ensures
        ({
            let (project, after) = ui::project_with(
                name,
                entry,
                agents,
                decisions,
                runtime,
                claimed,
            );
            &&& 0 <= i < agents.len() && is_crew(name, entry, agents[i]) && !claimed.contains(
                agents[i].name->0,
            ) ==> is_named(project.members, agents[i].name->0)
            &&& 0 <= k < project.members.len() ==> is_found(
                project.members[k],
                name,
                entry,
                agents,
                claimed,
            )
            &&& project.commander_offline <==> !is_named(project.members, entry.commander)
            &&& forall|other: Seq<char>| #[trigger]
                after.contains(other) <==> claimed.contains(other) || is_named(
                    project.members,
                    other,
                )
        }),
{
    let count = agents.len() as int;
    let found = ui::members_among(name, entry, agents, count, claimed);
    let (project, after) = ui::project_with(name, entry, agents, decisions, runtime, claimed);
    lemma_crew(name, entry, agents, count, claimed);
    assert(agents.take(count) =~= agents);
    assert forall|other: Seq<char>| #[trigger] is_named(project.members, other) == is_named(
        found.members,
        other,
    ) by {
        if is_named(found.members, other) {
            let n = choose|n: int|
                0 <= n < found.members.len() && (#[trigger] found.members[n]).name == other;
            lemma_sorted_named(found.members, found.members[n]);
            assert(found.members.contains(found.members[n]));
            let m = choose|m: int|
                0 <= m < project.members.len() && project.members[m] == found.members[n];
            assert(project.members[m].name == other);
        }
        if is_named(project.members, other) {
            let n = choose|n: int|
                0 <= n < project.members.len() && (#[trigger] project.members[n]).name == other;
            lemma_sorted_named(found.members, project.members[n]);
            assert(project.members.contains(project.members[n]));
            let m = choose|m: int|
                0 <= m < found.members.len() && found.members[m] == project.members[n];
            assert(found.members[m].name == other);
        }
    }
    assert(is_named(project.members, entry.commander) == is_named(
        found.members,
        entry.commander,
    ));
    assert forall|other: Seq<char>| #[trigger]
        after.contains(other) <==> claimed.contains(other) || is_named(
            project.members,
            other,
        ) by {
        assert(found.claimed.contains(other) <==> claimed.contains(other) || is_named(
            found.members,
            other,
        ));
        assert(is_named(project.members, other) == is_named(found.members, other));
    }
    if 0 <= i < agents.len() {
        assert(is_named(project.members, agents[i].name->0) == is_named(
            found.members,
            agents[i].name->0,
        ));
    }
    if 0 <= k < project.members.len() {
        lemma_sorted_named(found.members, project.members[k]);
        assert(project.members.contains(project.members[k]));
        let m = choose|m: int|
            0 <= m < found.members.len() && found.members[m] == project.members[k];
        assert(is_found(found.members[m], name, entry, agents, claimed));
    }
}

/// The members of a project stand by their roles: the commander first, then
/// the first officer, then the others.
pub proof fn law_crew_stands_by_role(
    name: Seq<char>,
    entry: FleetV,
    agents: Seq<AgentV>,
    decisions: Seq<JsonV>,
    runtime: JsonV,
    claimed: Seq<Seq<char>>,
    i: int,
    j: int,
)
    requires
        0 <= i < j < ui::project_with(
            name,
            entry,
            agents,
            decisions,
            runtime,
            claimed,
        ).0.members.len(),
    ensures
        ({
            let members = ui::project_with(
                name,
                entry,
                agents,
                decisions,
                runtime,
                claimed,
            ).0.members;
            &&& members[j].role == "机长"@ ==> members[i].role == "机长"@
            &&& members[j].role == "副机长"@ ==> members[i].role == "机长"@ || members[i].role
                == "副机长"@
        }),
{
    let found = ui::members_among(name, entry, agents, agents.len() as int, claimed);
    crate::tower_laws::law_commander_stands_first(found.members);
    reveal_strlit("机长");
    reveal_strlit("副机长");
    assert("机长"@.len() == 2 && "副机长"@.len() == 3);
    let sorted = order::arranged(found.members, ui::stands_before());
    let ahead = ui::stands_before();
    assert(!ahead(sorted[j], sorted[i]));
}

/// The projects of the tower are those that are registered, in their order;
/// each gets what is left of the crew by those before it.
pub proof fn law_projects_are_grouped(
    fleets: Seq<Fleet>,
    agents: Seq<AgentV>,
    decisions: Seq<JsonV>,
    runtime: JsonV,
    count: int,
)
    requires
        0 < count <= fleets.len(),
    ensures
        ({
            let before = ui::projects_with(fleets, count - 1, agents, decisions, runtime);
            let after = ui::projects_with(fleets, count, agents, decisions, runtime);
            let (project, claimed) = ui::project_with(
                fleets[count - 1].name@,
                fleets[count - 1].entry@,
                agents,
                decisions,
                runtime,
                before.1,
            );
            &&& after == (before.0.push(project), claimed)
            &&& project.name == fleets[count - 1].name@
            &&& project.entry == fleets[count - 1].entry@
            &&& ui::projects_with(fleets, 0, agents, decisions, runtime).0.len() == 0
            &&& ui::projects_with(fleets, 0, agents, decisions, runtime).1.len() == 0
        }),
{
}

/// A project stands at what it has reported, and at a decision where one is
/// open; its commander is seen as the runtime says, and is unknown where it
/// says nothing.
pub proof fn law_project_stands_as_reported(
    name: Seq<char>,
    entry: FleetV,
    agents: Seq<AgentV>,
    decisions: Seq<JsonV>,
    runtime: JsonV,
    claimed: Seq<Seq<char>>,
)
    ensures
        ({
            let project = ui::project_with(name, entry, agents, decisions, runtime, claimed).0;
            let open = queue_laws::awaits_decision(decisions, name);
            let live = runtime.at("projects"@).at(name).get("live_status"@);
            &&& open ==> project.status == "need_decision"@
            &&& !open && is_known(entry.reported_status) ==> project.status
                == entry.reported_status
            &&& live is Some && live->0 is Text ==> project.live_status == live->0->Text_0
            &&& !(live is Some && live->0 is Text) ==> project.live_status == "unknown"@
        }),
{
    lemma_words();
    let document = ui::entry_document(entry);
    queue_laws::law_effective_status(document, decisions, name);
    assert(document.get("reported_status"@) == Some(JsonV::Text(entry.reported_status)));
}

/// A status that a commander can report.
pub open spec fn is_known(status: Seq<char>) -> bool {
    status == "working"@ || status == "blocked"@ || status == "done"@ || status == "idle"@
}

/// The time of day is cut out of a written time; where there is none, dashes
/// stand for it.
pub proof fn law_time_of_day_is_cut_out(date: Seq<char>, time: Seq<char>, rest: Seq<char>)
    ensures
        ui::time_of_day(None) == "--:--:--"@,
        text::between_bytes(date + time + rest, 11, 19) == Some(time) ==> ui::time_of_day(
            Some(date + time + rest),
        ) == time,
        text::between_bytes(date, 11, 19) is None ==> ui::time_of_day(Some(date))
            == "--:--:--"@,
{
}

/// How many entries have been read is the number that the cursor holds, and
/// none where it holds no number.
pub proof fn law_cursor_is_read(body: Seq<char>, n: nat)
    ensures
        ui::cursor_in(None) == 0,
        text::natural(text::trimmed(body)) == Some(n) ==> ui::cursor_in(Some(body)) == n,
        text::natural(text::trimmed(body)) is None ==> ui::cursor_in(Some(body)) == 0,
{
}

/// What was selected stays selected while it is there; otherwise the first
/// project is, and none where there is none.
pub proof fn law_selection_stays_in_the_list(selected: Option<usize>, count: nat)
    ensures
        ({
            let after = ui::selection(selected, count);
            &&& count == 0 <==> after is None
            &&& count > 0 ==> after->0 < count
            &&& count > 0 && selected is Some && selected->0 < count ==> after == selected
            &&& count > 0 && !(selected is Some && selected->0 < count) ==> after == Some(0usize)
        }),
{
}

/// Unfolding one project folds or unfolds it, and leaves every other as it is.
pub proof fn law_unfolding_is_of_one(names: Seq<Seq<char>>, name: Seq<char>, one: Seq<char>)
    ensures
        ({
            let after = ui::toggled(names, name);
            &&& after.contains(name) == !names.contains(name)
            &&& one != name ==> after.contains(one) == names.contains(one)
        }),
{
    if names.contains(name) {
        lemma_without(names, name, ui::others(name), name);
        lemma_without(names, name, ui::others(name), one);
    } else {
        lemma_contains_push(names, name, name);
        lemma_contains_push(names, name, one);
    }
}

proof fn lemma_without(
    names: Seq<Seq<char>>,
    name: Seq<char>,
    kept: spec_fn(Seq<char>) -> bool,
    one: Seq<char>,
)
    requires
        forall|other: Seq<char>| #[trigger] kept(other) == (other != name),
    ensures
        names.filter(kept).contains(one) == (names.contains(one) && one != name),
    decreases names.len(),
{
    reveal(Seq::filter);
    if names.len() > 0 {
        let (rest, last) = (names.drop_last(), names.last());
        lemma_without(rest, name, kept, one);
        assert(names =~= rest.push(last));
        lemma_contains_push(rest, last, one);
        lemma_contains_push(rest.filter(kept), last, one);
    }
}

/// A row of the list is of one project at most, and it is so where the heights
/// of those above it reach up to it and its own beyond it; the frame is of none.
pub proof fn law_row_is_of_one_project(
    heights: Seq<u16>,
    offset: int,
    top: int,
    height: int,
    row: int,
    i: int,
    j: int,
)
    requires
        0 <= offset,
    ensures
        ui::covers(heights, offset, top, height, row, i) && ui::covers(
            heights,
            offset,
            top,
            height,
            row,
            j,
        ) ==> i == j,
        ui::covers(heights, offset, top, height, row, i) ==> top < row && row <= top + height - 2
            && top + 1 + ui::height_between(heights, offset, i) <= row && row < top + 1
            + ui::height_between(heights, offset, i) + heights[i],
        ui::height_between(heights, offset, offset) == 0,
{
    if ui::covers(heights, offset, top, height, row, i) {
        if i > offset {
            assert(row >= top + 1 + ui::height_between(heights, offset, (i - 1) + 1));
        }
        if ui::covers(heights, offset, top, height, row, j) {
            if i < j {
                assert(row >= top + 1 + ui::height_between(heights, offset, i + 1));
            } else if j < i {
                assert(row >= top + 1 + ui::height_between(heights, offset, j + 1));
            }
        }
    }
}

/// Every row within the frame that the heights reach is of the project whose
/// lines stand there.
pub proof fn law_row_is_of_what_stands_there(
    heights: Seq<u16>,
    offset: int,
    top: int,
    height: int,
    row: int,
    i: int,
)
    requires
        0 <= offset <= i < heights.len(),
        top < row <= top + height - 2,
        top + 1 + ui::height_between(heights, offset, i) <= row,
        row < top + 1 + ui::height_between(heights, offset, i) + heights[i],
    ensures
        ui::covers(heights, offset, top, height, row, i),
{
    assert forall|k: int| offset <= k < i implies row >= top + 1
        + #[trigger] ui::height_between(heights, offset, k + 1) by {
        lemma_heights_grow(heights, offset, k + 1, i);
    }
}

proof fn lemma_heights_grow(heights: Seq<u16>, from: int, low: int, high: int)
    requires
        from <= low <= high,
    ensures
        ui::height_between(heights, from, low) <= ui::height_between(heights, from, high),
    decreases high - low,
{
    if low < high {
        lemma_heights_grow(heights, from, low, high - 1);
    }
}

/// How long ago something was is told in the largest unit that is over: in
/// seconds, minutes, hours or days.
pub proof fn law_age_is_told_in_units(value: Seq<char>, moment: (int, int), n: nat)
    ensures
        ({
            let age = attention::age_at(Some(value), moment);
            let told = ui::ago_of(value, moment);
            &&& age == n && n < 60 ==> told == text::digits(n) + "秒前"@
            &&& n * 60 <= age < n * 60 + 60 && 1 <= n < 60 ==> told == text::digits(n)
                + "分钟前"@
            &&& n * 3600 <= age < n * 3600 + 3600 && 1 <= n < 24 ==> told == text::digits(n)
                + "小时前"@
            &&& n * 86400 <= age < n * 86400 + 86400 && 1 <= n ==> told == text::digits(n)
                + "天前"@
        }),
{
    let age = attention::age_at(Some(value), moment);
    if n * 60 <= age < n * 60 + 60 {
        assert(age / 60 == n);
    }
    if n * 3600 <= age < n * 3600 + 3600 {
        assert(age / 3600 == n);
    }
    if n * 86400 <= age < n * 86400 + 86400 {
        assert(age / 86400 == n);
    }
}

/// Every status has its label, and what is no status is unknown.
pub proof fn law_labels(status: Seq<char>)
    ensures
        ui::label_of("working"@) == "进行中"@,
        ui::label_of("idle"@) == "空闲"@,
        ui::label_of("done"@) == "已完成"@,
        ui::label_of("blocked"@) == "受阻"@,
        ui::label_of("need_decision"@) == "等你拍板"@,
        ui::label_of("offline"@) == "离线"@,
        ui::label_of("reported"@) == "机长声明"@,
        ui::label_of("verified"@) == "机器已验证"@,
        ui::label_of("accepted"@) == "用户已验收"@,
        !is_known(status) && status != "need_decision"@ && status != "offline"@ && status
            != "reported"@ && status != "verified"@ && status != "accepted"@ ==> ui::label_of(
            status,
        ) == "未知"@,
{
    lemma_words();
}

/// The decisions that are shown are those that are open.
pub proof fn law_open_decisions_are_shown(decisions: Seq<DecisionV>, decision: DecisionV)
    ensures
        decisions.filter(ui::waiting()).contains(decision) == (decisions.contains(decision)
            && decision.state == "open"@),
    decreases decisions.len(),
{
    reveal(Seq::filter);
    let kept = ui::waiting();
    let after = decisions.filter(kept);
    if decisions.len() > 0 {
        let (rest, last) = (decisions.drop_last(), decisions.last());
        law_open_decisions_are_shown(rest, decision);
        let fewer = rest.filter(kept);
        assert(decisions =~= rest.push(last));
        assert(decisions[decisions.len() - 1] == last);
        if rest.contains(decision) {
            let k = choose|k: int| 0 <= k < rest.len() && rest[k] == decision;
            assert(decisions[k] == decision);
        }
        if decisions.contains(decision) && decision != last {
            let k = choose|k: int| 0 <= k < decisions.len() && decisions[k] == decision;
            assert(rest[k] == decision);
        }
        if fewer.contains(decision) {
            let k = choose|k: int| 0 <= k < fewer.len() && fewer[k] == decision;
            assert(after[k] == decision);
        }
        if kept(last) {
            assert(after =~= fewer.push(last));
            assert(after[fewer.len() as int] == last);
        }
        if after.contains(decision) && !fewer.contains(decision) {
            let k = choose|k: int| 0 <= k < after.len() && after[k] == decision;
            if k < fewer.len() {
                assert(fewer[k] == decision);
            }
        }
    }
}

} // verus!
