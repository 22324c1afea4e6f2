//! What the watcher is for: it stands where Herdr is, asks for the events that
//! matter, and tells how it fares.
use vstd::prelude::*;
use crate::herdr::{EventV, OpenV};
use crate::herdr;
use crate::json::JsonV;
use crate::observation_laws;
use crate::outside;
use crate::state;
use crate::text;
use crate::textmap::Texts;
use crate::watch::{SocketEnv, WatchAction};
use crate::watch;

verus! {

/// The words differ: in length, or in a letter.
proof fn lemma_words()
    ensures
        "id"@.len() == 2,
        "name"@.len() == 4 && "name"@[0] == 'n',
        "type"@.len() == 4 && "type"@[0] == 't',
        "watch"@.len() == 5,
        "method"@.len() == 6 && "method"@[0] == 'm',
        "params"@.len() == 6 && "params"@[0] == 'p',
        "pane_id"@.len() == 7,
        "envelope"@.len() == 8,
        "watch-stop"@.len() == 10,
        "watch-start"@.len() == 11,
        "watch-status"@.len() == 12,
{
    reveal_strlit("id");
    reveal_strlit("name");
    reveal_strlit("type");
    reveal_strlit("watch");
    reveal_strlit("method");
    reveal_strlit("params");
    reveal_strlit("pane_id");
    reveal_strlit("envelope");
    reveal_strlit("watch-stop");
    reveal_strlit("watch-start");
    reveal_strlit("watch-status");
}


/// Each verb of the watcher is known, and no other word is one.
pub proof fn law_verbs_of_the_watcher(verb: Seq<char>)
    ensures
        ({
            let action = watch::watch_verb(verb);
            &&& verb == "watch"@ <==> action == Some(WatchAction::Foreground)
            &&& verb == "watch-start"@ <==> action == Some(WatchAction::Start)
            &&& verb == "watch-status"@ <==> action == Some(WatchAction::Status)
            &&& verb == "watch-stop"@ <==> action == Some(WatchAction::Stop)
        }),
{
    lemma_words();
}

/// A plugin starts no watcher, and one that runs is not started again; any
/// other is started without a word.
pub proof fn law_watcher_is_started_once(plugin: bool, existing: Option<int>)
    ensures
        ({
            let line = watch::start_line(plugin, existing);
            &&& plugin ==> line == Some(
                "Plugin 模式由 Herdr startup/event hooks 维护实时状态，无独立 watcher"@,
            )
            &&& !plugin && existing is Some ==> line == Some(
                "事件监听器已在运行（pid "@ + text::signed_digits(existing->0) + "）"@,
            )
            &&& !plugin && existing is None ==> line is None
        }),
{
}

/// The watcher tells whether it runs and whether it is connected.
pub proof fn law_watcher_tells_how_it_fares(plugin: bool, existing: Option<int>, runtime: JsonV)
    ensures
        ({
            let line = watch::status_text(plugin, existing, runtime);
            let connected = runtime.get("connected"@) == Some(JsonV::Bool(true));
            let head = "事件监听器运行中（pid "@ + text::signed_digits(existing->0) + "，"@;
            &&& plugin && connected ==> line == "Plugin 事件模式（"@ + "已连接 Herdr"@
                + "，无独立 watcher）"@
            &&& plugin && !connected ==> line == "Plugin 事件模式（"@ + "等待 snapshot 对账"@
                + "，无独立 watcher）"@
            &&& !plugin && existing is None ==> line == "事件监听器未运行"@
            &&& !plugin && existing is Some && connected ==> line == head + "已连接 Herdr"@
                + "）"@
            &&& !plugin && existing is Some && !connected ==> line == head
                + "正在重连 Herdr"@ + "）"@
        }),
{
}

/// The socket is the one that is named; else it stands beside the
/// configuration of Herdr, and that of a session of its own in the directory of
/// the session.
pub proof fn law_socket_is_found(env: SocketEnv)
    ensures
        ({
            let socket = watch::socket_of(env);
            let home = if env.home is Some {
                env.home->0@
            } else {
                "."@
            };
            let config = if env.config is Some {
                env.config->0@
            } else {
                state::joined_path(home, ".config/herdr/config.toml"@)
            };
            let base = match outside::path_parent(config) {
                Some(dir) => dir,
                None => "."@,
            };
            let own = env.session is Some && env.session->0@ != "default"@;
            &&& env.socket is Some ==> socket == env.socket->0@
            &&& env.socket is None && !own ==> socket == state::joined_path(base, "herdr.sock"@)
            &&& env.socket is None && own ==> socket == state::joined_path(
                state::joined_path(state::joined_path(base, "sessions"@), env.session->0@),
                "herdr.sock"@,
            )
        }),
{
}

/// A request says what is asked for, and its answer is the message with its
/// identifier.
pub proof fn law_request_is_answered(
    id: Seq<char>,
    method: Seq<char>,
    params: JsonV,
    message: JsonV,
)
    ensures
        ({
            let request = watch::request_of(id, method, params);
            &&& request.get("id"@) == Some(JsonV::Text(id))
            &&& request.get("method"@) == Some(JsonV::Text(method))
            &&& request.get("params"@) == Some(params)
            &&& watch::is_answer(message, id) <==> message.get("id"@) == request.get("id"@)
        }),
{
    lemma_words();
}

/// The events that change which panes there are.
pub open spec fn is_topology(name: Seq<char>) -> bool {
    ||| name == "workspace.created"@ || name == "workspace.closed"@ || name == "tab.created"@
    ||| name == "tab.closed"@ || name == "pane.created"@ || name == "pane.closed"@
    ||| name == "pane.moved"@ || name == "pane.exited"@ || name == "pane.agent_detected"@
}

/// A list of subscriptions asks for the events of a kind, wherever they are.
pub open spec fn asks_for_kind(list: Seq<JsonV>, kind: Seq<char>) -> bool {
    exists|k: int|
        0 <= k < list.len() && (#[trigger] list[k]).get("type"@) == Some(JsonV::Text(kind))
            && list[k].get("pane_id"@) is None
}

/// A list of subscriptions asks for the status of a pane.
pub open spec fn asks_for_pane(list: Seq<JsonV>, pane: Seq<char>) -> bool {
    exists|k: int|
        0 <= k < list.len() && (#[trigger] list[k]).get("type"@) == Some(
            JsonV::Text("pane.agent_status_changed"@),
        ) && list[k].get("pane_id"@) == Some(JsonV::Text(pane))
}

/// Some agent stands in a pane.
pub open spec fn has_agent(snapshot: JsonV, pane: Seq<char>) -> bool {
    exists|i: int|
        0 <= i < snapshot.at("agents"@).items().len() && (#[trigger] snapshot.at(
            "agents"@,
        ).items()[i]).get("pane_id"@) == Some(JsonV::Text(pane))
}

/// The watcher subscribes to every event that changes which panes there are,
/// and to the status of every pane that has an agent, and to nothing else.
pub proof fn law_what_matters_is_subscribed_to(
    snapshot: JsonV,
    kind: Seq<char>,
    pane: Seq<char>,
    k: int,
)
    ensures
        ({
            let list = watch::subscribed(snapshot);
            &&& is_topology(kind) ==> asks_for_kind(list, kind)
            &&& has_agent(snapshot, pane) ==> asks_for_pane(list, pane)
            &&& 0 <= k < list.len() ==> {
                ||| list[k].get("pane_id"@) is None && is_topology(list[k].string("type"@))
                ||| list[k].get("type"@) == Some(JsonV::Text("pane.agent_status_changed"@))
                    && has_agent(snapshot, list[k].string("pane_id"@))
            }
        }),
{
    lemma_words();
    let list = watch::subscribed(snapshot);
    let kinds = watch::topology_events();
    let agents = snapshot.at("agents"@).items();
    let panes = watch::panes_of(agents);
    lemma_topology(kind);
    observation_laws::law_panes_are_subscribed_once(agents);
    if is_topology(kind) {
        let i = choose|i: int| 0 <= i < kinds.len() && kinds[i] == kind;
        assert(list[i] == watch::kind_subscription(kind));
    }
    if has_agent(snapshot, pane) {
        let i = choose|i: int|
            0 <= i < agents.len() && (#[trigger] agents[i]).get("pane_id"@) == Some(
                JsonV::Text(pane),
            );
        assert(agents[i].optional_string("pane_id"@) == Some(pane));
        assert(panes.contains(pane));
        let n = choose|n: int| 0 <= n < panes.len() && panes[n] == pane;
        assert(list[kinds.len() + n] == watch::pane_subscription(pane));
    }
    if 0 <= k < kinds.len() {
        assert(list[k] == watch::kind_subscription(kinds[k]));
        assert(kinds.contains(kinds[k]));
        lemma_topology(kinds[k]);
    } else if kinds.len() <= k < list.len() {
        let named = panes[k - kinds.len()];
        assert(list[k] == watch::pane_subscription(named));
        assert(panes.contains(named));
        let i = choose|i: int|
            0 <= i < agents.len() && #[trigger] agents[i].optional_string("pane_id"@) == Some(
                named,
            );
        assert(agents[i].get("pane_id"@) == Some(JsonV::Text(named)));
    }
}

proof fn lemma_topology(name: Seq<char>)
    ensures
        watch::topology_events().contains(name) <==> is_topology(name),
{
    let kinds = watch::topology_events();
    assert(kinds[0] == "workspace.created"@ && kinds[1] == "workspace.closed"@);
    assert(kinds[2] == "tab.created"@ && kinds[3] == "tab.closed"@);
    assert(kinds[4] == "pane.created"@ && kinds[5] == "pane.closed"@);
    assert(kinds[6] == "pane.moved"@ && kinds[7] == "pane.exited"@);
    assert(kinds[8] == "pane.agent_detected"@);
}

/// An event of a plugin is recorded with its name and its envelope; what is
/// told of it names it and counts the agents that are seen.
pub proof fn law_event_is_recorded(
    files: Texts,
    event: EventV,
    snapshot: JsonV,
)
    ensures
        ({
            let record = herdr::event_record(event);
            let count = text::digits(snapshot.at("agents"@).items().len());
            let line = herdr::event_line(files, event, Ok::<JsonV, Seq<char>>(snapshot));
            &&& event.name is Some ==> record.get("name"@) == Some(JsonV::Text(event.name->0))
            &&& event.name is None ==> record.get("name"@) == Some(JsonV::Null)
            &&& event.envelope is Some ==> record.get("envelope"@) == event.envelope
            &&& event.envelope is None ==> record.get("envelope"@) == Some(JsonV::Null)
            &&& event.name is Some ==> line == "plugin event reconciled: "@ + event.name->0
                + " ("@ + count + " agents)"@
            &&& event.name is None ==> line == "plugin event reconciled: "@ + "unknown"@
                + " ("@ + count + " agents)"@
        }),
{
    lemma_words();
}

/// What is done with the pane of the control tower, as a command of Herdr.
pub proof fn law_tower_commands(id: Seq<char>)
    ensures
        herdr::open_words(OpenV::Close(id)) == seq!["pane"@, "close"@, id],
        herdr::open_words(OpenV::Focus(id)) == seq!["plugin"@, "pane"@, "focus"@, id],
        herdr::open_words(OpenV::Open(id)) == seq!["plugin"@, "pane"@, "open"@, "--plugin"@, id]
            + seq!["--entrypoint"@, "tower"@, "--placement"@, "overlay"@, "--focus"@],
{
}

} // verus!
