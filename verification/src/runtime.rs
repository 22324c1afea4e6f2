//! What Herdr observes, projected onto the registered projects. A projection
//! says who is online and since when; it never says what a project has
//! reported.
use vstd::prelude::*;
use crate::depth;
use crate::json::{string, string_is, Json, JsonV, Members, Object};
use crate::json;
use crate::records;
use crate::shallow;
use crate::text;
use crate::text::same;

verus! {

/// The agents of a snapshot.
pub open spec fn agents_of(snapshot: JsonV) -> Seq<JsonV> {
    snapshot.at("agents"@).items()
}

/// The agents of a snapshot.
pub fn snapshot_agents(snapshot: &Json) -> (r: Vec<Json>)
    ensures
        json::views(r@) == agents_of(snapshot@),
{
    snapshot.at("agents").into_items()
}

pub open spec fn called(name: Seq<char>) -> spec_fn(JsonV) -> bool {
    |agent: JsonV| agent.optional_string("name"@) == Some(name)
}

/// The agent of a name: the last one where several share it.
pub open spec fn agent_named(agents: Seq<JsonV>, name: Seq<char>) -> Option<JsonV> {
    match records::last_where(agents, called(name)) {
        Some(i) => Some(agents[i]),
        None => None,
    }
}

/// Whether an agent bears a name.
pub fn is_called(agent: &Json, name: &str) -> (r: bool)
    ensures
        r == (agent@.optional_string("name"@) == Some(name@)),
{
    match agent.get("name") {
        Some(value) => match value.as_str() {
            Some(found) => same(found, name),
            None => false,
        },
        None => false,
    }
}

fn find_agent<'a>(agents: &'a Vec<Json>, name: &str) -> (r: Option<&'a Json>)
    ensures
        json::opt_json(r) == agent_named(json::views(agents@), name@),
{
    let ghost all = json::views(agents@);
    let mut i: usize = agents.len();
    while i > 0
        invariant
            i <= agents.len(),
            all == json::views(agents@),
            forall|k: int| i <= k < all.len() ==> !called(name@)(#[trigger] all[k]),
        decreases i,
    {
        proof {
            assert(all[i - 1] == agents@[i - 1]@);
        }
        if is_called(&agents[i - 1], name) {
            proof {
                records::lemma_last_where_is(all, called(name@), i - 1);
            }
            return Some(&agents[i - 1]);
        }
        i = i - 1;
    }
    proof {
        records::lemma_nowhere(all, called(name@));
    }
    None
}

/// A member of an agent, or null where the agent or the member is missing.
pub open spec fn agent_member(agent: Option<JsonV>, name: Seq<char>) -> JsonV {
    match agent {
        Some(value) => value.at(name),
        None => JsonV::Null,
    }
}

/// The live status of an agent: `offline` where there is none, or where it
/// gives no status.
pub open spec fn live_status_of(agent: Option<JsonV>) -> Seq<char> {
    match agent {
        Some(value) => if value.string("agent_status"@).len() > 0 {
            value.string("agent_status"@)
        } else {
            "offline"@
        },
        None => "offline"@,
    }
}

/// A project was live in the same way before.
pub open spec fn is_unchanged(before: JsonV, agent: Option<JsonV>) -> bool {
    &&& before.string("live_status"@) == live_status_of(agent)
    &&& json::same_value(before.at("pane_id"@), agent_member(agent, "pane_id"@))
    &&& before.flag("online"@, false) == agent is Some
}

/// Since when a project is live in its present way.
pub open spec fn live_since(before: JsonV, agent: Option<JsonV>, observed: Seq<char>) -> Seq<char> {
    if is_unchanged(before, agent) {
        match before.optional_string("live_status_since"@) {
            Some(since) => since,
            None => observed,
        }
    } else {
        observed
    }
}

/// The live state of one project.
pub open spec fn live_state(
    entry: JsonV,
    agents: Seq<JsonV>,
    before: JsonV,
    observed: Seq<char>,
) -> JsonV {
    let commander = entry.string("commander"@);
    let agent = agent_named(agents, commander);
    let labels = match agent {
        Some(value) => match value.get("state_labels"@) {
            Some(labels) => labels,
            None => JsonV::Object(Map::empty()),
        },
        None => JsonV::Object(Map::empty()),
    };
    JsonV::Object(
        map![
            "commander"@ => JsonV::Text(commander),
            "online"@ => JsonV::Bool(agent is Some),
            "live_status"@ => JsonV::Text(live_status_of(agent)),
            "live_status_since"@ => JsonV::Text(live_since(before, agent, observed)),
            "pane_id"@ => agent_member(agent, "pane_id"@),
            "workspace_id"@ => agent_member(agent, "workspace_id"@),
            "state_labels"@ => labels,
            "observed_at"@ => JsonV::Text(observed),
        ],
    )
}

fn project_live(entry: &Json, agents: &Vec<Json>, before: &Json, observed: &str) -> (r: Json)
    ensures
        r@ == live_state(entry@, json::views(agents@), before@, observed@),
{
    let commander = string(entry, "commander");
    let agent = find_agent(agents, commander.as_str());
    let live_status: String = match agent {
        Some(value) => {
            let status = string(value, "agent_status");
            if status.as_str().is_empty() {
                "offline".to_owned()
            } else {
                status
            }
        },
        None => "offline".to_owned(),
    };
    let pane_id: Json = match agent {
        Some(value) => value.at("pane_id"),
        None => Json::Null,
    };
    let workspace_id: Json = match agent {
        Some(value) => value.at("workspace_id"),
        None => Json::Null,
    };
    let labels: Json = match agent {
        Some(value) => match value.get("state_labels") {
            Some(labels) => labels.clone(),
            None => Json::Object(Object::new()),
        },
        None => Json::Object(Object::new()),
    };
    let unchanged = string_is(before, "live_status", live_status.as_str()) && before.at(
        "pane_id",
    ).equals(&pane_id) && before.flag("online", false) == agent.is_some();
    let since: String = if unchanged {
        match json::optional_string(before, "live_status_since") {
            Some(since) => since,
            None => observed.to_owned(),
        }
    } else {
        observed.to_owned()
    };
    let mut object = Object::new();
    object.put("commander", Json::Text(commander));
    object.put("online", Json::Bool(agent.is_some()));
    object.put("live_status", Json::Text(live_status));
    object.put("live_status_since", Json::Text(since));
    object.put("pane_id", pane_id);
    object.put("workspace_id", workspace_id);
    object.put("state_labels", labels);
    object.put("observed_at", Json::text(observed));
    Json::Object(object)
}

/// The live state of a project before, an empty object where there was none.
pub open spec fn live_before(previous: JsonV, project: Seq<char>) -> JsonV {
    match previous.at("projects"@).get(project) {
        Some(before) => before,
        None => JsonV::Object(Map::empty()),
    }
}

/// The live state of every registered project.
pub open spec fn live_states(
    registry: Members,
    agents: Seq<JsonV>,
    previous: JsonV,
    observed: Seq<char>,
) -> Members {
    Map::new(
        |project: Seq<char>| registry.contains_key(project),
        |project: Seq<char>|
            live_state(registry[project], agents, live_before(previous, project), observed),
    )
}

fn project_all(registry: &Object, agents: &Vec<Json>, previous: &Json, observed: &str) -> (r: Object)
    ensures
        r@ == live_states(registry@, json::views(agents@), previous@, observed@),
{
    let names = registry.names();
    let ghost order = json::name_order(registry@);
    let before_all = previous.at("projects");
    let mut out = Object::new();
    let mut n: usize = 0;
    while n < names.len()
        invariant
            n <= names.len(),
            text::texts(names@) == order,
            json::is_name_order(order, registry@),
            before_all@ == previous@.at("projects"@),
            forall|k: int| 0 <= k < n ==> #[trigger] out@.contains_key(order[k]),
            forall|name: Seq<char>| #[trigger]
                out@.contains_key(name) ==> registry@.contains_key(name) && out@[name]
                    == live_state(
                    registry@[name],
                    json::views(agents@),
                    live_before(previous@, name),
                    observed@,
                ),
        decreases names.len() - n,
    {
        proof {
            assert(order[n as int] == names@[n as int]@);
            assert(order.contains(names@[n as int]@));
        }
        match registry.get(names[n].as_str()) {
            Some(entry) => {
                let before: Json = match before_all.get(names[n].as_str()) {
                    Some(before) => before.clone(),
                    None => Json::Object(Object::new()),
                };
                let live = project_live(entry, agents, &before, observed);
                out.put(names[n].as_str(), live);
            },
            None => {},
        }
        n = n + 1;
    }
    proof {
        assert forall|name: Seq<char>| registry@.contains_key(name) implies out@.contains_key(
            name,
        ) by {
            assert(order.contains(name));
            let k = choose|k: int| 0 <= k < order.len() && order[k] == name;
            assert(out@.contains_key(order[k]));
        }
        assert(out@ =~= live_states(registry@, json::views(agents@), previous@, observed@));
    }
    out
}

/// The runtime document after a snapshot: the connection, what was observed,
/// and the live state of every registered project.
pub open spec fn runtime_of(
    registry: Members,
    previous: JsonV,
    snapshot: JsonV,
    connected: bool,
    error: Option<Seq<char>>,
    source: Seq<char>,
    last_event: Option<JsonV>,
    observed: Seq<char>,
) -> JsonV {
    let event = match last_event {
        Some(event) => event,
        None => JsonV::Null,
    };
    JsonV::Object(
        map![
            "connected"@ => JsonV::Bool(connected),
            "error"@ => json::text_or_null(error),
            "source"@ => JsonV::Text(source),
            "updated_at"@ => JsonV::Text(observed),
            "herdr_version"@ => snapshot.at("version"@),
            "protocol"@ => snapshot.at("protocol"@),
            "last_event"@ => event,
            "agents"@ => JsonV::Array(agents_of(snapshot)),
            "projects"@ => JsonV::Object(
                live_states(registry, agents_of(snapshot), previous, observed),
            ),
        ],
    )
}

/// The runtime document after a snapshot that was observed at a given time.
pub fn runtime_at(
    registry: &Object,
    previous: &Json,
    snapshot: &Json,
    connected: bool,
    error: Option<&str>,
    source: &str,
    last_event: Option<&Json>,
    observed: &str,
) -> (r: Json)
    ensures
        r@ == runtime_of(
            registry@,
            previous@,
            snapshot@,
            connected,
            text::opt_text(error),
            source@,
            json::opt_json(last_event),
            observed@,
        ),
{
    let agents = snapshot_agents(snapshot);
    let projects = project_all(registry, &agents, previous, observed);
    let event: Json = match last_event {
        Some(event) => event.clone(),
        None => Json::Null,
    };
    let mut object = Object::new();
    object.put("connected", Json::Bool(connected));
    object.put("error", Json::optional(error));
    object.put("source", Json::text(source));
    object.put("updated_at", Json::text(observed));
    object.put("herdr_version", snapshot.at("version"));
    object.put("protocol", snapshot.at("protocol"));
    object.put("last_event", event);
    object.put("agents", Json::Array(agents));
    object.put("projects", Json::Object(projects));
    Json::Object(object)
}

/// What is known of Herdr after it could not be asked: the agents, the version
/// and the protocol of the runtime before.
pub open spec fn remembered(previous: JsonV) -> JsonV {
    let agents = match previous.get("agents"@) {
        Some(agents) => agents,
        None => JsonV::Array(Seq::empty()),
    };
    JsonV::Object(
        map![
            "agents"@ => agents,
            "version"@ => previous.at("herdr_version"@),
            "protocol"@ => previous.at("protocol"@),
        ],
    )
}

/// What is known of Herdr after it could not be asked.
pub fn baseline(previous: &Json) -> (r: Json)
    ensures
        r@ == remembered(previous@),
        depth::is_shallow(previous@) ==> depth::is_shallow(r@),
{
    proof {
        if depth::is_shallow(previous@) {
            shallow::lemma_remembered(previous@);
        }
    }
    let agents: Json = match previous.get("agents") {
        Some(agents) => agents.clone(),
        None => {
            let none: Vec<Json> = Vec::new();
            proof {
                assert(json::views(none@) =~= Seq::<JsonV>::empty());
            }
            Json::Array(none)
        },
    };
    let mut object = Object::new();
    object.put("agents", agents);
    object.put("version", previous.at("herdr_version"));
    object.put("protocol", previous.at("protocol"));
    Json::Object(object)
}

} // verus!
