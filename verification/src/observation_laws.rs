//! What holds of observing Herdr: it changes what is observed, and never what
//! the projects have reported, claimed or asked.
use vstd::prelude::*;
use crate::attention::ClockV;
use crate::herdr;
use crate::json::{JsonV, Members};
use crate::json;
use crate::runtime;
use crate::state;
use crate::text;
use crate::textmap::Texts;
use crate::upkeep;
use crate::watch;

verus! {

/// Whatever is observed, registry, decisions and claims stay as they are.
pub proof fn law_observing_leaves_business_state(
    files: Texts,
    snapshot: JsonV,
    connected: bool,
    error: Option<Seq<char>>,
    source: Seq<char>,
    last_event: Option<JsonV>,
    clock: ClockV,
)
    ensures
        ({
            let after = herdr::observed(
                files,
                snapshot,
                connected,
                error,
                source,
                last_event,
                clock,
            );
            &&& state::registry_of(after) == state::registry_of(files)
            &&& state::decisions_of(after) == state::decisions_of(files)
            &&& state::claims_of(after) == state::claims_of(files)
        }),
{
    let value = upkeep::runtime_from(
        files,
        snapshot,
        connected,
        error,
        source,
        last_event,
        clock.text,
    );
    upkeep::law_runtime_leaves_business_state(files, value);
    upkeep::law_refresh_changes_no_source(state::written(files, "runtime.json"@, value), clock);
}

/// A message that comes while watching changes neither registry, decisions nor
/// claims.
pub proof fn law_events_leave_business_state(
    files: Texts,
    snapshot: JsonV,
    message: JsonV,
    clock: ClockV,
)
    ensures
        ({
            let after = watch::status_step(files, snapshot, message, clock).0;
            &&& state::registry_of(after) == state::registry_of(files)
            &&& state::decisions_of(after) == state::decisions_of(files)
            &&& state::claims_of(after) == state::claims_of(files)
        }),
{
    law_observing_leaves_business_state(
        files,
        watch::snapshot_after(snapshot, message),
        true,
        None,
        "watch"@,
        Some(message),
        clock,
    );
}

proof fn lemma_dotted_at(names: Seq<Seq<char>>, raw: Seq<char>, i: int)
    requires
        0 <= i < names.len(),
        text::replaced(names[i], '.', '_') == raw,
        forall|k: int| 0 <= k < i ==> text::replaced(#[trigger] names[k], '.', '_') != raw,
    ensures
        watch::dotted(names, raw) == names[i],
    decreases names.len(),
{
    if i > 0 {
        assert(text::replaced(names[0], '.', '_') != raw);
        let rest = names.drop_first();
        assert forall|k: int| 0 <= k < i - 1 implies text::replaced(#[trigger] rest[k], '.', '_')
            != raw by {
            assert(rest[k] == names[k + 1]);
        }
        lemma_dotted_at(rest, raw, i - 1);
    }
}

proof fn lemma_event_names()
    ensures
        forall|i: int, j: int|
            0 <= i < j < watch::canonical_events().len() ==> text::replaced(
                #[trigger] watch::canonical_events()[i],
                '.',
                '_',
            ) != text::replaced(#[trigger] watch::canonical_events()[j], '.', '_'),
{
    let all = watch::canonical_events();
    reveal_strlit("workspace.created");
    reveal_strlit("workspace.closed");
    reveal_strlit("tab.created");
    reveal_strlit("tab.closed");
    reveal_strlit("pane.created");
    reveal_strlit("pane.closed");
    reveal_strlit("pane.moved");
    reveal_strlit("pane.exited");
    reveal_strlit("pane.agent_detected");
    reveal_strlit("pane.agent_status_changed");
    assert(all.len() == 10);
    assert(all[0].len() == 17 && all[1].len() == 16 && all[2].len() == 11 && all[3].len() == 10);
    assert(all[4].len() == 12 && all[5].len() == 11 && all[6].len() == 10 && all[7].len() == 11);
    assert(all[8].len() == 19 && all[9].len() == 25);
    assert(all[2][0] == 't' && all[3][0] == 't' && all[5][0] == 'p' && all[6][0] == 'p');
    assert(all[7][0] == 'p' && all[5][5] == 'c' && all[7][5] == 'e');
    assert forall|i: int, j: int| 0 <= i < j < all.len() implies text::replaced(
        #[trigger] all[i],
        '.',
        '_',
    ) != text::replaced(#[trigger] all[j], '.', '_') by {
        let left = text::replaced(all[i], '.', '_');
        let right = text::replaced(all[j], '.', '_');
        assert(left.len() == all[i].len() && right.len() == all[j].len());
        if left == right {
            assert(left[0] == right[0] && left[5] == right[5]);
        }
    }
}

/// The name of a known event is found from the form that has underscores in
/// the place of dots; underscores within its parts stay. A name with a dot is
/// taken as it is.
pub proof fn law_event_aliases(i: int, raw: Seq<char>)
    requires
        0 <= i < watch::canonical_events().len(),
        text::occurs(raw, "."@),
    ensures
        watch::name_of_event(text::replaced(watch::canonical_events()[i], '.', '_'))
            == watch::canonical_events()[i],
        watch::name_of_event(raw) == raw,
{
    let all = watch::canonical_events();
    let alias = text::replaced(all[i], '.', '_');
    reveal_strlit(".");
    if text::occurs(alias, "."@) {
        let at = choose|at: int| text::occurs_at(alias, "."@, at);
        assert(alias.subrange(at, at + 1) == "."@);
        assert(alias[at] == alias.subrange(at, at + 1)[0]);
        assert(alias[at] == '.');
        assert(false);
    }
    lemma_event_names();
    assert forall|k: int| 0 <= k < i implies text::replaced(#[trigger] all[k], '.', '_')
        != alias by {}
    lemma_dotted_at(all, alias, i);
}

proof fn lemma_fields_keep(members: Members, data: JsonV, count: int, name: Seq<char>)
    requires
        0 <= count <= watch::status_fields().len(),
        !watch::status_fields().contains(name),
    ensures
        watch::with_fields(members, data, count).contains_key(name) == members.contains_key(name),
        members.contains_key(name) ==> watch::with_fields(members, data, count)[name]
            == members[name],
    decreases count,
{
    if count > 0 {
        lemma_fields_keep(members, data, count - 1, name);
        assert(watch::status_fields().contains(watch::status_fields()[count - 1]));
    }
}

/// A status event changes only the agents and panes of the pane that it names,
/// and of those only the members that it carries: each keeps its pane, and
/// each list its length.
pub proof fn law_status_event_stays_in_its_pane(
    item: JsonV,
    pane: Seq<char>,
    data: JsonV,
    name: Seq<char>,
)
    requires
        !watch::status_fields().contains(name),
    ensures
        item.optional_string("pane_id"@) != Some(pane) ==> watch::item_after(item, pane, data)
            == item,
        watch::item_after(item, pane, data).get(name) == item.get(name),
{
    if item.optional_string("pane_id"@) == Some(pane) {
        lemma_fields_keep(item->Object_0, data, watch::status_fields().len() as int, name);
    }
}

/// A message changes nothing of a snapshot but its agents and panes, and of
/// those how many there are stays.
pub proof fn law_message_keeps_the_rest(snapshot: JsonV, message: JsonV, name: Seq<char>)
    requires
        name != "agents"@,
        name != "panes"@,
    ensures
        watch::snapshot_after(snapshot, message).get(name) == snapshot.get(name),
        watch::snapshot_after(snapshot, message).at("agents"@).items().len() == snapshot.at(
            "agents"@,
        ).items().len(),
        watch::snapshot_after(snapshot, message).at("panes"@).items().len() == snapshot.at(
            "panes"@,
        ).items().len(),
{
    reveal_strlit("agents");
    reveal_strlit("panes");
    assert("agents"@.len() == 6 && "panes"@.len() == 5);
}

proof fn lemma_panes_named(agents: Seq<JsonV>, pane: Seq<char>)
    ensures
        watch::panes_named(agents).contains_key(pane) <==> exists|i: int|
            0 <= i < agents.len() && #[trigger] agents[i].optional_string("pane_id"@) == Some(pane),
        watch::panes_named(agents).dom().finite(),
    decreases agents.len(),
{
    if agents.len() > 0 {
        let rest = agents.drop_last();
        lemma_panes_named(rest, pane);
        if watch::panes_named(agents).contains_key(pane) {
            if agents.last().optional_string("pane_id"@) == Some(pane) {
                assert(agents[agents.len() - 1].optional_string("pane_id"@) == Some(pane));
            } else {
                let i = choose|i: int|
                    0 <= i < rest.len() && #[trigger] rest[i].optional_string("pane_id"@) == Some(
                        pane,
                    );
                assert(agents[i].optional_string("pane_id"@) == Some(pane));
            }
        }
        if exists|i: int|
            0 <= i < agents.len() && #[trigger] agents[i].optional_string("pane_id"@) == Some(
                pane,
            ) {
            let i = choose|i: int|
                0 <= i < agents.len() && #[trigger] agents[i].optional_string("pane_id"@) == Some(
                    pane,
                );
            if i < rest.len() {
                assert(rest[i].optional_string("pane_id"@) == Some(pane));
            }
        }
    }
}

/// The status of every pane with an agent is subscribed to, once, and of no
/// other.
pub proof fn law_panes_are_subscribed_once(agents: Seq<JsonV>)
    ensures
        json::increasing(watch::panes_of(agents)),
        forall|pane: Seq<char>| #[trigger]
            watch::panes_of(agents).contains(pane) <==> exists|i: int|
                0 <= i < agents.len() && #[trigger] agents[i].optional_string("pane_id"@) == Some(
                    pane,
                ),
{
    lemma_panes_named(agents, Seq::empty());
    json::lemma_name_order(watch::panes_named(agents));
    assert forall|pane: Seq<char>| #[trigger]
        watch::panes_of(agents).contains(pane) <==> exists|i: int|
            0 <= i < agents.len() && #[trigger] agents[i].optional_string("pane_id"@) == Some(
                pane,
            ) by {
        lemma_panes_named(agents, pane);
    }
}

/// Every value is the same as itself.
pub proof fn lemma_same_itself(value: JsonV)
    ensures
        json::same_value(value, value),
    decreases value,
{
    match value {
        JsonV::Array(items) => {
            assert forall|i: int| 0 <= i < items.len() implies json::same_value(
                #[trigger] items[i],
                items[i],
            ) by {
                lemma_same_itself(items[i]);
            }
        },
        JsonV::Object(members) => {
            assert forall|name: Seq<char>| #[trigger] members.contains_key(
                name,
            ) implies json::same_value(members[name], members[name]) by {
                lemma_same_itself(members[name]);
            }
        },
        _ => {},
    }
}

proof fn lemma_live_members(
    entry: JsonV,
    agents: Seq<JsonV>,
    before: JsonV,
    observed: Seq<char>,
)
    ensures
        ({
            let live = runtime::live_state(entry, agents, before, observed);
            let agent = runtime::agent_named(agents, entry.string("commander"@));
            &&& live.string("live_status"@) == runtime::live_status_of(agent)
            &&& live.at("pane_id"@) == runtime::agent_member(agent, "pane_id"@)
            &&& live.flag("online"@, false) == agent is Some
            &&& live.optional_string("live_status_since"@) == Some(
                runtime::live_since(before, agent, observed),
            )
        }),
{
    reveal_strlit("commander");
    reveal_strlit("online");
    reveal_strlit("live_status");
    reveal_strlit("live_status_since");
    reveal_strlit("pane_id");
    reveal_strlit("workspace_id");
    reveal_strlit("state_labels");
    reveal_strlit("observed_at");
    assert("commander"@.len() == 9 && "online"@.len() == 6 && "live_status"@.len() == 11);
    assert("live_status_since"@.len() == 17 && "pane_id"@.len() == 7);
    assert("workspace_id"@.len() == 12 && "state_labels"@.len() == 12);
    assert("observed_at"@.len() == 11 && "observed_at"@[0] == 'o' && "live_status"@[0] == 'l');
}

/// A project that is observed again in the same way keeps the time since when
/// it is so: only a change of its status, its pane or its being online begins
/// a new time.
pub proof fn law_unchanged_keeps_its_time(
    entry: JsonV,
    agents: Seq<JsonV>,
    before: JsonV,
    first: Seq<char>,
    later: Seq<char>,
)
    ensures
        ({
            let once = runtime::live_state(entry, agents, before, first);
            let twice = runtime::live_state(entry, agents, once, later);
            twice.string("live_status_since"@) == once.string("live_status_since"@)
        }),
{
    let once = runtime::live_state(entry, agents, before, first);
    let agent = runtime::agent_named(agents, entry.string("commander"@));
    lemma_live_members(entry, agents, before, first);
    lemma_live_members(entry, agents, once, later);
    lemma_same_itself(runtime::agent_member(agent, "pane_id"@));
}

} // verus!
