//! What holds of the control tower: every agent has one project, and the
//! commander stands first.
use vstd::prelude::*;
use crate::json::JsonV;
use crate::order;
use crate::ui::{AgentV, Fleet, FleetV, MemberV};
use crate::ui;

verus! {

/// What was taken before stays taken; the members that are found were not
/// taken before, and are taken afterwards.
proof fn lemma_members_taken(
    project: Seq<char>,
    entry: FleetV,
    agents: Seq<AgentV>,
    count: int,
    claimed: Seq<Seq<char>>,
)
    requires
        0 <= count <= agents.len(),
    ensures
        ({
            let found = ui::members_among(project, entry, agents, count, claimed);
            &&& forall|name: Seq<char>|
                claimed.contains(name) ==> #[trigger] found.claimed.contains(name)
            &&& forall|i: int|
                0 <= i < found.members.len() ==> !claimed.contains(
                    (#[trigger] found.members[i]).name,
                ) && found.claimed.contains(found.members[i].name)
            &&& forall|i: int, j: int|
                0 <= i < j < found.members.len() ==> (#[trigger] found.members[i]).name != (
                #[trigger] found.members[j]).name
        }),
    decreases count,
{
    if count > 0 {
        lemma_members_taken(project, entry, agents, count - 1, claimed);
        let rest = ui::members_among(project, entry, agents, count - 1, claimed);
        let found = ui::members_among(project, entry, agents, count, claimed);
        let agent = agents[count - 1];
        if ui::belongs(project, entry, agent) && !rest.claimed.contains(agent.name->0) {
            let name = agent.name->0;
            assert(found.claimed[rest.claimed.len() as int] == name);
            assert forall|n: Seq<char>| rest.claimed.contains(
                n,
            ) implies #[trigger] found.claimed.contains(n) by {
                let k = choose|k: int| 0 <= k < rest.claimed.len() && rest.claimed[k] == n;
                assert(found.claimed[k] == n);
            }
            assert forall|i: int| 0 <= i < found.members.len() implies !claimed.contains(
                (#[trigger] found.members[i]).name,
            ) && found.claimed.contains(found.members[i].name) by {
                if i < rest.members.len() {
                    assert(found.members[i] == rest.members[i]);
                } else {
                    assert(!rest.claimed.contains(name));
                }
            }
            assert forall|i: int, j: int| 0 <= i < j < found.members.len() implies (
            #[trigger] found.members[i]).name != (#[trigger] found.members[j]).name by {
                assert(found.members[i] == rest.members[i]);
                if j < rest.members.len() {
                    assert(found.members[j] == rest.members[j]);
                } else {
                    assert(rest.claimed.contains(rest.members[i].name));
                }
            }
        }
    }
}

/// Sorting the members keeps who they are.
proof fn lemma_arranged_member(found: Seq<MemberV>, i: int)
    requires
        0 <= i < order::arranged(found, ui::stands_before()).len(),
    ensures
        found.contains(order::arranged(found, ui::stands_before())[i]),
{
    broadcast use vstd::seq_lib::group_to_multiset_ensures;

    let sorted = order::arranged(found, ui::stands_before());
    order::lemma_arranged_same_values(found, ui::stands_before());
    assert(sorted.contains(sorted[i]));
    assert(sorted.to_multiset().count(sorted[i]) > 0);
}

/// The members of a project were not taken before it, and are taken after it.
proof fn lemma_project_members(
    name: Seq<char>,
    entry: FleetV,
    agents: Seq<AgentV>,
    decisions: Seq<JsonV>,
    runtime: JsonV,
    claimed: Seq<Seq<char>>,
)
    ensures
        ({
            let (project, after) = ui::project_with(
                name,
                entry,
                agents,
                decisions,
                runtime,
                claimed,
            );
            &&& forall|n: Seq<char>| claimed.contains(n) ==> #[trigger] after.contains(n)
            &&& forall|i: int|
                0 <= i < project.members.len() ==> !claimed.contains(
                    (#[trigger] project.members[i]).name,
                ) && after.contains(project.members[i].name)
        }),
{
    let found = ui::members_among(name, entry, agents, agents.len() as int, claimed);
    lemma_members_taken(name, entry, agents, agents.len() as int, claimed);
    let (project, after) = ui::project_with(name, entry, agents, decisions, runtime, claimed);
    assert forall|i: int| 0 <= i < project.members.len() implies !claimed.contains(
        (#[trigger] project.members[i]).name,
    ) && after.contains(project.members[i].name) by {
        lemma_arranged_member(found.members, i);
        let k = choose|k: int|
            0 <= k < found.members.len() && found.members[k] == project.members[i];
        assert(!claimed.contains(found.members[k].name));
    }
}

proof fn lemma_taken_grows(
    fleets: Seq<Fleet>,
    low: int,
    high: int,
    agents: Seq<AgentV>,
    decisions: Seq<JsonV>,
    runtime: JsonV,
)
    requires
        0 <= low <= high <= fleets.len(),
    ensures
        ({
            let less = ui::projects_with(fleets, low, agents, decisions, runtime);
            let more = ui::projects_with(fleets, high, agents, decisions, runtime);
            &&& less.0.len() == low
            &&& more.0.len() == high
            &&& forall|i: int| 0 <= i < low ==> #[trigger] more.0[i] == less.0[i]
            &&& forall|n: Seq<char>| less.1.contains(n) ==> #[trigger] more.1.contains(n)
        }),
    decreases high,
{
    if low < high {
        lemma_taken_grows(fleets, low, high - 1, agents, decisions, runtime);
        let rest = ui::projects_with(fleets, high - 1, agents, decisions, runtime);
        lemma_project_members(
            fleets[high - 1].name@,
            fleets[high - 1].entry@,
            agents,
            decisions,
            runtime,
            rest.1,
        );
    } else if high > 0 {
        lemma_taken_grows(fleets, high - 1, high - 1, agents, decisions, runtime);
    }
}

/// An agent is a member of one project at most.
pub proof fn law_agent_has_one_project(
    fleets: Seq<Fleet>,
    agents: Seq<AgentV>,
    decisions: Seq<JsonV>,
    runtime: JsonV,
    i: int,
    j: int,
    a: int,
    b: int,
)
    requires
        0 <= i < j < fleets.len(),
        0 <= a < ui::projects_with(
            fleets,
            fleets.len() as int,
            agents,
            decisions,
            runtime,
        ).0[i].members.len(),
        0 <= b < ui::projects_with(
            fleets,
            fleets.len() as int,
            agents,
            decisions,
            runtime,
        ).0[j].members.len(),
    ensures
        ({
            let projects = ui::projects_with(
                fleets,
                fleets.len() as int,
                agents,
                decisions,
                runtime,
            ).0;
            projects[i].members[a].name != projects[j].members[b].name
        }),
{
    let all = ui::projects_with(fleets, fleets.len() as int, agents, decisions, runtime);
    let before_i = ui::projects_with(fleets, i, agents, decisions, runtime);
    let after_i = ui::projects_with(fleets, i + 1, agents, decisions, runtime);
    let before_j = ui::projects_with(fleets, j, agents, decisions, runtime);
    let after_j = ui::projects_with(fleets, j + 1, agents, decisions, runtime);
    lemma_taken_grows(fleets, i + 1, j, agents, decisions, runtime);
    lemma_taken_grows(fleets, i + 1, fleets.len() as int, agents, decisions, runtime);
    lemma_taken_grows(fleets, j + 1, fleets.len() as int, agents, decisions, runtime);
    lemma_taken_grows(fleets, i, i + 1, agents, decisions, runtime);
    lemma_taken_grows(fleets, j, j + 1, agents, decisions, runtime);
    lemma_project_members(
        fleets[i].name@,
        fleets[i].entry@,
        agents,
        decisions,
        runtime,
        before_i.1,
    );
    lemma_project_members(
        fleets[j].name@,
        fleets[j].entry@,
        agents,
        decisions,
        runtime,
        before_j.1,
    );
    assert(all.0[i] == after_i.0[i]);
    assert(all.0[j] == after_j.0[j]);
    assert(after_i.1.contains(all.0[i].members[a].name));
    assert(before_j.1.contains(all.0[i].members[a].name));
    assert(!before_j.1.contains(all.0[j].members[b].name));
}

/// Within a project the commander stands before the first officer, and that one
/// before the crew.
pub proof fn law_commander_stands_first(found: Seq<MemberV>)
    ensures
        order::in_order(order::arranged(found, ui::stands_before()), ui::stands_before()),
        order::arranged(found, ui::stands_before()).to_multiset() == found.to_multiset(),
{
    assert(order::is_ranking(ui::stands_before()));
    order::lemma_arranged_in_order(found, ui::stands_before());
    order::lemma_arranged_same_values(found, ui::stands_before());
}

} // verus!
