//! What observing Herdr is for: who is online, in which state and since when,
//! as the last snapshot says it, for every registered project.
use vstd::prelude::*;
use crate::attention::ClockV;
use crate::fault::{FaultKind, FaultV};
use crate::fault;
use crate::herdr::{EventV, OpenV};
use crate::herdr;
use crate::json::{JsonV, Members};
use crate::json;
use crate::observation_laws;
use crate::outside;
use crate::records;
use crate::runtime;
use crate::state;
use crate::text;
use crate::textmap::Texts;
use crate::upkeep;
use crate::watch;

verus! {

/// The words differ: in length, or in a letter.
proof fn lemma_words()
    ensures
        "data"@.len() == 4 && "data"@[0] == 'd',
        "name"@.len() == 4 && "name"@[0] == 'n',
        "type"@.len() == 4 && "type"@[0] == 't',
        "agent"@.len() == 5 && "agent"@[0] == 'a' && "agent"@[1] == 'g',
        "error"@.len() == 5 && "error"@[0] == 'e' && "error"@[1] == 'r',
        "event"@.len() == 5 && "event"@[0] == 'e' && "event"@[1] == 'v',
        "label"@.len() == 5 && "label"@[0] == 'l' && "label"@[1] == 'a',
        "panes"@.len() == 5 && "panes"@[0] == 'p' && "panes"@[1] == 'a',
        "title"@.len() == 5 && "title"@[0] == 't' && "title"@[1] == 'i',
        "watch"@.len() == 5 && "watch"@[0] == 'w' && "watch"@[1] == 'a',
        "agents"@.len() == 6 && "agents"@[0] == 'a',
        "online"@.len() == 6 && "online"@[0] == 'o',
        "result"@.len() == 6 && "result"@[0] == 'r',
        "source"@.len() == 6 && "source"@[0] == 's',
        "focused"@.len() == 7 && "focused"@[0] == 'f',
        "offline"@.len() == 7 && "offline"@[0] == 'o',
        "pane_id"@.len() == 7 && "pane_id"@[0] == 'p',
        "version"@.len() == 7 && "version"@[0] == 'v',
        "envelope"@.len() == 8 && "envelope"@[3] == 'e',
        "projects"@.len() == 8 && "projects"@[3] == 'j',
        "protocol"@.len() == 8 && "protocol"@[3] == 't',
        "snapshot"@.len() == 8 && "snapshot"@[3] == 'p',
        "commander"@.len() == 9 && "commander"@[2] == 'm',
        "connected"@.len() == 9 && "connected"@[2] == 'n',
        "last_event"@.len() == 10 && "last_event"@[0] == 'l',
        "updated_at"@.len() == 10 && "updated_at"@[0] == 'u',
        "live_status"@.len() == 11 && "live_status"@[0] == 'l',
        "observed_at"@.len() == 11 && "observed_at"@[0] == 'o',
        "agent_status"@.len() == 12 && "agent_status"@[0] == 'a',
        "plugin_event"@.len() == 12 && "plugin_event"@[0] == 'p',
        "state_labels"@.len() == 12 && "state_labels"@[0] == 's',
        "workspace_id"@.len() == 12 && "workspace_id"@[0] == 'w',
        "display_agent"@.len() == 13 && "display_agent"@[0] == 'd',
        "herdr_version"@.len() == 13 && "herdr_version"@[0] == 'h',
        "live_status_since"@.len() == 17,
{
    reveal_strlit("data");
    reveal_strlit("name");
    reveal_strlit("type");
    reveal_strlit("agent");
    reveal_strlit("error");
    reveal_strlit("event");
    reveal_strlit("label");
    reveal_strlit("panes");
    reveal_strlit("title");
    reveal_strlit("watch");
    reveal_strlit("agents");
    reveal_strlit("online");
    reveal_strlit("result");
    reveal_strlit("source");
    reveal_strlit("focused");
    reveal_strlit("offline");
    reveal_strlit("pane_id");
    reveal_strlit("version");
    reveal_strlit("envelope");
    reveal_strlit("projects");
    reveal_strlit("protocol");
    reveal_strlit("snapshot");
    reveal_strlit("commander");
    reveal_strlit("connected");
    reveal_strlit("last_event");
    reveal_strlit("updated_at");
    reveal_strlit("live_status");
    reveal_strlit("observed_at");
    reveal_strlit("agent_status");
    reveal_strlit("plugin_event");
    reveal_strlit("state_labels");
    reveal_strlit("workspace_id");
    reveal_strlit("display_agent");
    reveal_strlit("herdr_version");
    reveal_strlit("live_status_since");
}


/// The agent that a commander's name stands for: the last one that bears it.
pub open spec fn is_commander(agents: Seq<JsonV>, name: Seq<char>, k: int) -> bool {
    &&& 0 <= k < agents.len()
    &&& agents[k].get("name"@) == Some(JsonV::Text(name))
    &&& forall|n: int|
        k < n < agents.len() ==> (#[trigger] agents[n]).get("name"@) != Some(JsonV::Text(name))
}

/// No agent bears a name.
pub open spec fn is_absent(agents: Seq<JsonV>, name: Seq<char>) -> bool {
    forall|n: int|
        0 <= n < agents.len() ==> (#[trigger] agents[n]).get("name"@) != Some(JsonV::Text(name))
}

proof fn lemma_commander(agents: Seq<JsonV>, name: Seq<char>, k: int)
    ensures
        is_commander(agents, name, k) ==> runtime::agent_named(agents, name) == Some(agents[k]),
        is_absent(agents, name) ==> runtime::agent_named(agents, name) is None,
{
    let wanted = runtime::called(name);
    if is_commander(agents, name, k) {
        assert forall|n: int| k < n < agents.len() implies !wanted(#[trigger] agents[n]) by {}
        records::lemma_last_where_is(agents, wanted, k);
    }
    if is_absent(agents, name) {
        assert forall|n: int| 0 <= n < agents.len() implies !wanted(#[trigger] agents[n]) by {}
        records::lemma_nowhere(agents, wanted);
    }
}

/// The live state that a runtime document holds of a project.
pub open spec fn live_in(document: JsonV, project: Seq<char>) -> Option<JsonV> {
    document.at("projects"@).get(project)
}

/// A snapshot gives a live state to every registered project and to no other.
/// That of a project whose commander is among the agents is online, with the
/// status, the pane and the labels of the agent; that of any other is offline.
pub proof fn law_snapshot_is_projected(
    registry: Members,
    previous: JsonV,
    snapshot: JsonV,
    connected: bool,
    error: Option<Seq<char>>,
    source: Seq<char>,
    last_event: Option<JsonV>,
    observed: Seq<char>,
    project: Seq<char>,
    k: int,
)
    ensures
        ({
            let document = runtime::runtime_of(
                registry,
                previous,
                snapshot,
                connected,
                error,
                source,
                last_event,
                observed,
            );
            let live = live_in(document, project);
            let agents = snapshot.at("agents"@).items();
            let name = registry[project].string("commander"@);
            &&& registry.contains_key(project) <==> live is Some
            &&& registry.contains_key(project) ==> {
                &&& live->0.get("commander"@) == Some(JsonV::Text(name))
                &&& live->0.get("observed_at"@) == Some(JsonV::Text(observed))
                &&& is_commander(agents, name, k) ==> {
                    let status = agents[k].string("agent_status"@);
                    &&& live->0.get("online"@) == Some(JsonV::Bool(true))
                    &&& live->0.get("live_status"@) == Some(
                        JsonV::Text(if status.len() > 0 { status } else { "offline"@ }),
                    )
                    &&& live->0.get("pane_id"@) == Some(agents[k].at("pane_id"@))
                    &&& live->0.get("workspace_id"@) == Some(agents[k].at("workspace_id"@))
                    &&& agents[k].get("state_labels"@) is Some ==> live->0.get("state_labels"@)
                        == agents[k].get("state_labels"@)
                    &&& agents[k].get("state_labels"@) is None ==> live->0.get("state_labels"@)
                        == Some(JsonV::Object(Map::empty()))
                }
                &&& is_absent(agents, name) ==> {
                    &&& live->0.get("online"@) == Some(JsonV::Bool(false))
                    &&& live->0.get("live_status"@) == Some(JsonV::Text("offline"@))
                    &&& live->0.get("pane_id"@) == Some(JsonV::Null)
                    &&& live->0.get("workspace_id"@) == Some(JsonV::Null)
                    &&& live->0.get("state_labels"@) == Some(JsonV::Object(Map::empty()))
                }
            }
        }),
{
    lemma_words();
    lemma_commander(
        snapshot.at("agents"@).items(),
        registry[project].string("commander"@),
        k,
    );
}

/// The time since when a project is live in its present way is that of the
/// observation wherever its status, its pane or its being online has changed,
/// or nothing was known before; where all three are as they were, the time is
/// the one that was known.
pub proof fn law_change_begins_a_new_time(
    registry: Members,
    previous: JsonV,
    snapshot: JsonV,
    connected: bool,
    error: Option<Seq<char>>,
    source: Seq<char>,
    last_event: Option<JsonV>,
    observed: Seq<char>,
    project: Seq<char>,
)
    requires
        registry.contains_key(project),
    ensures
        ({
            let document = runtime::runtime_of(
                registry,
                previous,
                snapshot,
                connected,
                error,
                source,
                last_event,
                observed,
            );
            let live = live_in(document, project)->0;
            let before = live_in(previous, project);
            let since = live.get("live_status_since"@);
            &&& before is None ==> since == Some(JsonV::Text(observed))
            &&& before is Some ==> {
                let known = before->0;
                let moved = known.get("live_status"@) != live.get("live_status"@)
                    || !json::same_value(known.at("pane_id"@), live.at("pane_id"@)) || (
                known.get("online"@) == Some(JsonV::Bool(true))) != (live.get("online"@) == Some(
                    JsonV::Bool(true),
                ));
                &&& moved ==> since == Some(JsonV::Text(observed))
                &&& !moved ==> since == (match known.get("live_status_since"@) {
                    Some(JsonV::Text(time)) => Some(JsonV::Text(time)),
                    _ => Some(JsonV::Text(observed)),
                })
            }
        }),
{
    lemma_words();
    let agents = snapshot.at("agents"@).items();
    let name = registry[project].string("commander"@);
    let agent = runtime::agent_named(agents, name);
    assert("offline"@.len() > 0);
    assert(runtime::live_status_of(agent).len() > 0);
}

/// Panes are the same where they are equal, and differ where one is a text and
/// the other is none, or another text.
pub proof fn law_panes_are_told_apart(left: JsonV, right: JsonV)
    ensures
        left == right ==> json::same_value(left, right),
        left is Text && left != right ==> !json::same_value(left, right),
        right is Text && left != right ==> !json::same_value(left, right),
        left is Null && left != right ==> !json::same_value(left, right),
{
    if left == right {
        observation_laws::lemma_same_itself(left);
    }
}

/// A runtime document says how it came about: whether Herdr is connected, why
/// it is not, from where and when it was observed, the last event, and the
/// version, the protocol and the agents of the snapshot.
pub proof fn law_document_says_how_it_came_about(
    registry: Members,
    previous: JsonV,
    snapshot: JsonV,
    connected: bool,
    error: Option<Seq<char>>,
    source: Seq<char>,
    last_event: Option<JsonV>,
    observed: Seq<char>,
)
    ensures
        ({
            let document = runtime::runtime_of(
                registry,
                previous,
                snapshot,
                connected,
                error,
                source,
                last_event,
                observed,
            );
            &&& document.get("connected"@) == Some(JsonV::Bool(connected))
            &&& error is None ==> document.get("error"@) == Some(JsonV::Null)
            &&& error is Some ==> document.get("error"@) == Some(JsonV::Text(error->0))
            &&& document.get("source"@) == Some(JsonV::Text(source))
            &&& document.get("updated_at"@) == Some(JsonV::Text(observed))
            &&& document.get("herdr_version"@) == Some(snapshot.at("version"@))
            &&& document.get("protocol"@) == Some(snapshot.at("protocol"@))
            &&& last_event is None ==> document.get("last_event"@) == Some(JsonV::Null)
            &&& last_event is Some ==> document.get("last_event"@) == Some(last_event->0)
            &&& document.at("agents"@) is Array
            &&& document.at("agents"@).items() == snapshot.at("agents"@).items()
        }),
{
    lemma_words();
}

/// What is remembered where Herdr could not be asked is what was last seen: the
/// same agents, version and protocol, so that a document made of it shows them
/// again.
pub proof fn law_last_snapshot_is_remembered(previous: JsonV)
    ensures
        ({
            let known = runtime::remembered(previous);
            &&& known.at("version"@) == previous.at("herdr_version"@)
            &&& known.at("protocol"@) == previous.at("protocol"@)
            &&& known.at("agents"@).items() == previous.at("agents"@).items()
        }),
{
    lemma_words();
}

/// A snapshot is observed in two documents: the runtime document that it gives
/// with the registry and what was known before, and the attention queue of the
/// state with that document. No other file is touched.
pub proof fn law_observing_writes_two_documents(
    files: Texts,
    snapshot: JsonV,
    connected: bool,
    error: Option<Seq<char>>,
    source: Seq<char>,
    last_event: Option<JsonV>,
    clock: ClockV,
    name: Seq<char>,
)
    ensures
        ({
            let after = herdr::observed(
                files,
                snapshot,
                connected,
                error,
                source,
                last_event,
                clock,
            );
            let document = runtime::runtime_of(
                state::registry_of(files),
                state::runtime_doc(files),
                snapshot,
                connected,
                error,
                source,
                last_event,
                clock.text,
            );
            let middle = files.insert(
                "runtime.json"@,
                outside::pretty_json(document) + "\n"@,
            );
            &&& after.contains_key("runtime.json"@)
            &&& after["runtime.json"@] == outside::pretty_json(document) + "\n"@
            &&& after.contains_key("attention.json"@)
            &&& after["attention.json"@] == outside::pretty_json(
                JsonV::Array(upkeep::queue_of(middle, clock)),
            ) + "\n"@
            &&& name != "runtime.json"@ && name != "attention.json"@ ==> state_of(after, name)
                == state_of(files, name)
        }),
{
    reveal_strlit("runtime.json");
    reveal_strlit("attention.json");
    assert("runtime.json"@.len() != "attention.json"@.len());
}

/// The text of a file, where there is one.
pub open spec fn state_of(files: Texts, name: Seq<char>) -> Option<Seq<char>> {
    if files.contains_key(name) {
        Some(files[name])
    } else {
        None
    }
}

/// An event is observed with the snapshot that was taken for it, as connected;
/// where none could be taken, with what is remembered, as disconnected for that
/// reason. The document names the event and holds its envelope.
pub proof fn law_event_is_observed(
    files: Texts,
    event: EventV,
    snapshot: JsonV,
    reason: Seq<char>,
    clock: ClockV,
)
    ensures
        ({
            let record = JsonV::Object(
                map![
                    "name"@ => match event.name {
                        Some(name) => JsonV::Text(name),
                        None => JsonV::Null,
                    },
                    "envelope"@ => match event.envelope {
                        Some(envelope) => envelope,
                        None => JsonV::Null,
                    },
                ],
            );
            &&& herdr::event_observed(files, event, Ok(snapshot), clock) == herdr::observed(
                files,
                snapshot,
                true,
                None,
                "plugin_event"@,
                Some(record),
                clock,
            )
            &&& herdr::event_observed(files, event, Err(reason), clock) == herdr::observed(
                files,
                runtime::remembered(state::runtime_doc(files)),
                false,
                Some(reason),
                "plugin_event"@,
                Some(record),
                clock,
            )
        }),
{
}

/// While the watcher connects, and after the connection was lost, what was last
/// seen is shown as not connected, with the reason.
pub proof fn law_lost_connection_is_shown(
    files: Texts,
    error: Seq<char>,
    clock: ClockV,
    observed: Seq<char>,
)
    ensures
        ({
            let known = runtime::remembered(state::runtime_doc(files));
            let document = runtime::runtime_of(
                state::registry_of(files),
                state::runtime_doc(files),
                known,
                false,
                Some("正在建立 Herdr 事件订阅"@),
                "watch"@,
                None,
                observed,
            );
            &&& watch::disconnected(files, error, clock) == herdr::observed(
                files,
                known,
                false,
                Some(error),
                "watch"@,
                None,
                clock,
            )
            &&& watch::connecting(files, observed) == files.insert(
                "runtime.json"@,
                outside::pretty_json(document) + "\n"@,
            )
        }),
{
}

/// The snapshot in what Herdr printed stands under `snapshot` in `result`, or
/// in the value itself where there is no result, or is what holds no snapshot
/// within; anything but an object is refused, and so is what does not parse.
pub proof fn law_snapshot_is_found(printed: Seq<char>, payload: JsonV)
    requires
        outside::parses_to(printed, payload),
    ensures
        ({
            let found = herdr::snapshot_in(printed);
            let inner = if payload.get("result"@) is Some {
                payload.at("result"@)
            } else {
                payload
            };
            let snapshot = if inner.get("snapshot"@) is Some {
                inner.at("snapshot"@)
            } else {
                inner
            };
            &&& snapshot is Object ==> found == Ok::<JsonV, FaultV>(snapshot)
            &&& !(snapshot is Object) ==> found == Err::<JsonV, FaultV>(
                fault::plain(FaultKind::NoSnapshot),
            )
        }),
{
}

/// An event without an envelope has the name that it was called by; one with an
/// envelope has that name, or else the one in the envelope.
pub proof fn law_event_is_read(
    raw: Seq<char>,
    name: Option<Seq<char>>,
    envelope: JsonV,
    words: Seq<char>,
)
    ensures
        herdr::event_given(None, name) == Ok::<EventV, FaultV>(EventV { name, envelope: None }),
        text::trimmed(raw).len() == 0 ==> herdr::event_given(Some(raw), name) == Ok::<
            EventV,
            FaultV,
        >(EventV { name, envelope: None }),
        text::trimmed(raw).len() > 0 && outside::parses_to(raw, envelope)
            ==> herdr::event_given(Some(raw), name) == Ok::<EventV, FaultV>(
            EventV {
                name: if name is Some {
                    name
                } else {
                    match envelope.get("event"@) {
                        Some(JsonV::Text(event)) => Some(event),
                        _ => None,
                    }
                },
                envelope: Some(envelope),
            },
        ),
        text::trimmed(raw).len() > 0 && outside::parse_fails(raw, words) ==> herdr::event_given(
            Some(raw),
            name,
        ) == Err::<EventV, FaultV>(fault::about(FaultKind::BadEvent, words)),
{
}

/// A pane shows the control tower: its label says so, or its title where it
/// has no label.
pub open spec fn is_tower_pane(pane: JsonV) -> bool {
    match pane.get("label"@) {
        Some(label) => label == JsonV::Text("Fleet Control Tower"@),
        None => pane.get("title"@) == Some(JsonV::Text("Fleet Control Tower"@)),
    }
}

/// The panes that Herdr lists: in the result where there is one.
pub open spec fn panes_listed(listing: JsonV) -> Seq<JsonV> {
    match listing.get("result"@) {
        Some(result) => result.at("panes"@).items(),
        None => listing.at("panes"@).items(),
    }
}

/// A pane is the first that shows the control tower.
pub open spec fn is_first_tower(panes: Seq<JsonV>, k: int) -> bool {
    &&& 0 <= k < panes.len()
    &&& is_tower_pane(panes[k])
    &&& forall|n: int| 0 <= n < k ==> !is_tower_pane(#[trigger] panes[n])
}

/// The control tower is opened once: where a pane shows it, that pane is
/// closed if it has the focus and focused if it has not; where none does, or it
/// has no identifier, the tower is opened by the plugin.
pub proof fn law_tower_is_opened_once(
    listing: JsonV,
    plugin_id: Option<Seq<char>>,
    k: int,
)
    ensures
        ({
            let panes = panes_listed(listing);
            let action = herdr::opening(herdr::tower_pane(listing), plugin_id);
            let fresh = OpenV::Open(
                match plugin_id {
                    Some(id) => id,
                    None => "sm-yjr.herdr-coordinator"@,
                },
            );
            let first = is_first_tower(panes, k);
            &&& (forall|n: int| 0 <= n < panes.len() ==> !is_tower_pane(#[trigger] panes[n]))
                ==> action == fresh
            &&& first && !(panes[k].at("pane_id"@) is Text) ==> action == fresh
            &&& first && panes[k].at("pane_id"@) is Text && panes[k].get("focused"@) == Some(
                JsonV::Bool(true),
            ) ==> action == OpenV::Close(panes[k].string("pane_id"@))
            &&& first && panes[k].at("pane_id"@) is Text && panes[k].get("focused"@) != Some(
                JsonV::Bool(true),
            ) ==> action == OpenV::Focus(panes[k].string("pane_id"@))
        }),
{
    let panes = panes_listed(listing);
    let wanted = herdr::tower_panes();
    assert forall|pane: JsonV| #[trigger] wanted(pane) == is_tower_pane(pane) by {}
    if forall|n: int| 0 <= n < panes.len() ==> !is_tower_pane(#[trigger] panes[n]) {
        assert forall|n: int| 0 <= n < panes.len() implies !wanted(#[trigger] panes[n]) by {
            assert(!is_tower_pane(panes[n]));
        }
        records::lemma_nowhere(panes, wanted);
    }
    if is_first_tower(panes, k) {
        assert forall|n: int| 0 <= n < k implies !wanted(#[trigger] panes[n]) by {
            assert(!is_tower_pane(panes[n]));
        }
        assert(wanted(panes[k]));
        records::lemma_first_where_is(panes, wanted, k);
    }
}

/// The members that a status event carries.
pub open spec fn is_carried(name: Seq<char>) -> bool {
    name == "agent_status"@ || name == "agent"@ || name == "display_agent"@ || name == "title"@
        || name == "state_labels"@
}

proof fn lemma_fields(members: Members, data: JsonV, name: Seq<char>)
    ensures
        ({
            let after = JsonV::Object(watch::with_fields(members, data, 5));
            after.get(name) == (if is_carried(name) && data.get(name) is Some {
                data.get(name)
            } else {
                JsonV::Object(members).get(name)
            })
        }),
{
    lemma_words();
    reveal_with_fuel(watch::with_fields, 6);
    let fields = watch::status_fields();
    assert(fields[0] == "agent_status"@ && fields[1] == "agent"@ && fields[2]
        == "display_agent"@);
    assert(fields[3] == "title"@ && fields[4] == "state_labels"@);
}

/// An item of a list after a status event: that of the pane that the event
/// names takes over the members that the event carries, and keeps all others;
/// that of any other pane stays as it is.
pub open spec fn is_updated(before: JsonV, after: JsonV, pane: Seq<char>, data: JsonV) -> bool {
    if before.get("pane_id"@) == Some(JsonV::Text(pane)) {
        after is Object && forall|name: Seq<char>| #[trigger]
            after.get(name) == (if is_carried(name) && data.get(name) is Some {
                data.get(name)
            } else {
                before.get(name)
            })
    } else {
        after == before
    }
}

proof fn lemma_item_after(item: JsonV, pane: Seq<char>, data: JsonV)
    ensures
        is_updated(item, watch::item_after(item, pane, data), pane, data),
{
    if item.get("pane_id"@) == Some(JsonV::Text(pane)) {
        let after = watch::item_after(item, pane, data);
        assert(watch::status_fields().len() == 5);
        assert forall|name: Seq<char>| #[trigger] after.get(name) == (if is_carried(name)
            && data.get(name) is Some {
            data.get(name)
        } else {
            item.get(name)
        }) by {
            lemma_fields(item->Object_0, data, name);
        }
    }
}

/// A status event is taken over by the agents and the panes of the pane that
/// it names, whichever way the event is spelled; whatever names no pane or is
/// another event changes nothing.
pub proof fn law_status_event_is_taken_over(
    snapshot: JsonV,
    message: JsonV,
    list: Seq<char>,
    k: int,
)
    requires
        list == "agents"@ || list == "panes"@,
        0 <= k < snapshot.at(list).items().len(),
    ensures
        ({
            let after = watch::snapshot_after(snapshot, message);
            let event = match message.get("event"@) {
                Some(name) => name,
                None => message.at("data"@).at("type"@),
            };
            let tells = event == JsonV::Text("pane.agent_status_changed"@) || event == JsonV::Text(
                "pane_agent_status_changed"@,
            );
            let pane = message.at("data"@).get("pane_id"@);
            &&& after.at(list).items().len() == snapshot.at(list).items().len()
            &&& tells && pane is Some && pane->0 is Text ==> is_updated(
                snapshot.at(list).items()[k],
                after.at(list).items()[k],
                pane->0->Text_0,
                message.at("data"@),
            )
            &&& !tells || !(pane is Some && pane->0 is Text) ==> after == snapshot
        }),
{
    lemma_words();
    let event = match message.get("event"@) {
        Some(name) => name,
        None => message.at("data"@).at("type"@),
    };
    lemma_event_told(watch::raw_event(message));
    reveal_strlit("pane.agent_status_changed");
    reveal_strlit("pane_agent_status_changed");
    assert("pane.agent_status_changed"@.len() > 0 && "pane_agent_status_changed"@.len() > 0);
    if watch::status_pane(message) is Some {
        let pane = watch::status_pane(message)->0;
        lemma_item_after(snapshot.at(list).items()[k], pane, message.at("data"@));
    }
}

/// The two spellings of the name of a status event, and no other.
proof fn lemma_event_told(raw: Seq<char>)
    ensures
        watch::name_of_event(raw) == "pane.agent_status_changed"@ <==> raw
            == "pane.agent_status_changed"@ || raw == "pane_agent_status_changed"@,
{
    let all = watch::canonical_events();
    let wanted = "pane.agent_status_changed"@;
    reveal_strlit("workspace.created");
    reveal_strlit("workspace.closed");
    reveal_strlit("tab.created");
    reveal_strlit("tab.closed");
    reveal_strlit("pane.created");
    reveal_strlit("pane.closed");
    reveal_strlit("pane.moved");
    reveal_strlit("pane.exited");
    reveal_strlit("pane.agent_detected");
    reveal_strlit("pane.agent_status_changed");
    reveal_strlit("pane_agent_status_changed");
    reveal_strlit(".");
    assert(all.len() == 10 && all[9] == wanted && wanted.len() == 25);
    assert(text::replaced(wanted, '.', '_') =~= "pane_agent_status_changed"@);
    assert forall|k: int| 0 <= k < 9 implies (#[trigger] all[k]).len() != 25 by {
        assert(all[k] == watch::topology_events()[k]);
    }
    if text::occurs(raw, "."@) {
        if raw == "pane_agent_status_changed"@ {
            let at = choose|at: int| text::occurs_at(raw, "."@, at);
            assert(raw.subrange(at, at + 1) == "."@);
            assert(raw[at] == raw.subrange(at, at + 1)[0]);
            assert(false);
        }
    } else {
        if raw == wanted {
            assert(raw.subrange(4, 5) =~= "."@);
            assert(text::occurs_at(raw, "."@, 4));
            assert(false);
        }
        lemma_dotted(all, raw);
    }
}

/// The dotted form of a name is one of those that are known, or the name.
proof fn lemma_dotted(names: Seq<Seq<char>>, raw: Seq<char>)
    ensures
        ({
            let found = watch::dotted(names, raw);
            ||| exists|k: int|
                0 <= k < names.len() && found == #[trigger] names[k] && text::replaced(
                    names[k],
                    '.',
                    '_',
                ) == raw
            ||| found == raw && forall|k: int|
                0 <= k < names.len() ==> text::replaced(#[trigger] names[k], '.', '_') != raw
        }),
    decreases names.len(),
{
    if names.len() > 0 && text::replaced(names[0], '.', '_') != raw {
        let rest = names.drop_first();
        lemma_dotted(rest, raw);
        let found = watch::dotted(rest, raw);
        assert forall|k: int| 0 <= k < rest.len() implies rest[k] == names[k + 1] by {}
        if exists|k: int|
            0 <= k < rest.len() && found == #[trigger] rest[k] && text::replaced(
                rest[k],
                '.',
                '_',
            ) == raw {
            let k = choose|k: int|
                0 <= k < rest.len() && found == #[trigger] rest[k] && text::replaced(
                    rest[k],
                    '.',
                    '_',
                ) == raw;
            assert(names[k + 1] == rest[k]);
        } else {
            assert forall|k: int| 0 <= k < names.len() implies text::replaced(
                #[trigger] names[k],
                '.',
                '_',
            ) != raw by {
                if k > 0 {
                    assert(rest[k - 1] == names[k]);
                }
            }
        }
    }
}

/// A message while watching: where it says that workspaces, tabs, panes or
/// agents have come or gone, the connection is to be made anew and nothing is
/// written; a status event is observed with the snapshot that it gives; any
/// other leaves the state as it is.
pub proof fn law_message_is_observed(
    files: Texts,
    snapshot: JsonV,
    message: JsonV,
    clock: ClockV,
)
    ensures
        ({
            let step = watch::message_step(files, snapshot, message, clock);
            let early = watch::status_step(files, snapshot, message, clock);
            let name = message.get("event"@);
            let topology = name == Some(JsonV::Text("workspace.created"@)) || name == Some(
                JsonV::Text("workspace.closed"@),
            ) || name == Some(JsonV::Text("tab.created"@)) || name == Some(
                JsonV::Text("tab.closed"@),
            ) || name == Some(JsonV::Text("pane.created"@)) || name == Some(
                JsonV::Text("pane.closed"@),
            ) || name == Some(JsonV::Text("pane.moved"@)) || name == Some(
                JsonV::Text("pane.exited"@),
            ) || name == Some(JsonV::Text("pane.agent_detected"@));
            let after = watch::snapshot_after(snapshot, message);
            &&& topology ==> step == Err::<(Texts, JsonV), FaultV>(
                fault::plain(FaultKind::TopologyChanged),
            )
            &&& !topology ==> step == Ok::<(Texts, JsonV), FaultV>(early)
            &&& early.1 == after
            &&& early.0 == files || early.0 == herdr::observed(
                files,
                after,
                true,
                None,
                "watch"@,
                Some(message),
                clock,
            )
            &&& after != snapshot ==> early.0 == herdr::observed(
                files,
                after,
                true,
                None,
                "watch"@,
                Some(message),
                clock,
            )
        }),
{
    let all = watch::topology_events();
    reveal_strlit("workspace.created");
    reveal_strlit("workspace.closed");
    reveal_strlit("tab.created");
    reveal_strlit("tab.closed");
    reveal_strlit("pane.created");
    reveal_strlit("pane.closed");
    reveal_strlit("pane.moved");
    reveal_strlit("pane.exited");
    reveal_strlit("pane.agent_detected");
    assert(all.len() == 9);
    assert(all[0] == "workspace.created"@ && all[1] == "workspace.closed"@);
    assert(all[2] == "tab.created"@ && all[3] == "tab.closed"@ && all[4] == "pane.created"@);
    assert(all[5] == "pane.closed"@ && all[6] == "pane.moved"@ && all[7] == "pane.exited"@);
    assert(all[8] == "pane.agent_detected"@);
    assert forall|k: int| 0 <= k < all.len() implies (#[trigger] all[k]).len() > 0 by {}
    let event = message.string("event"@);
    if all.contains(event) {
        let k = choose|k: int| 0 <= k < all.len() && all[k] == event;
        assert(all[k].len() > 0);
    }
    assert forall|k: int| 0 <= k < all.len() implies all.contains(#[trigger] all[k]) by {}
}

} // verus!
