//! The watcher: how it is started and stopped, what it asks of Herdr, and what
//! it makes of the events that come.
use vstd::prelude::*;
use crate::args;
use crate::attention::{Clock, ClockV};
use crate::depth;
use crate::fault::{Fault, FaultKind, FaultV};
use crate::fault;
use crate::herdr::observe_at;
use crate::herdr;
use crate::json::{optional_string, string, Json, JsonV, Members, Object};
use crate::json;
use crate::outside::{compact, now, parent_dir, parse_json};
use crate::outside;
use crate::runtime::baseline;
use crate::runtime;
use crate::state::{home_dir, join_path, State};
use crate::state;
use crate::text;
use crate::text::{cat2, cat3, cat5, contains, decimal_signed, parse_integer, parse_natural, same, same_replaced, trim};
use crate::textmap::Texts;
use crate::upkeep;

verus! {

/// What a command about the watcher asks for.
#[derive(Debug, Clone, Copy, PartialEq, Eq, Structural)]
pub enum WatchAction {
    /// Watch in the foreground.
    Foreground,
    /// Start a watcher.
    Start,
    /// Say how the watcher is.
    Status,
    /// Stop the watcher.
    Stop,
}

/// The commands about the watcher.
pub open spec fn watch_verb(command: Seq<char>) -> Option<WatchAction> {
    if command == "watch"@ {
        Some(WatchAction::Foreground)
    } else if command == "watch-start"@ {
        Some(WatchAction::Start)
    } else if command == "watch-status"@ {
        Some(WatchAction::Status)
    } else if command == "watch-stop"@ {
        Some(WatchAction::Stop)
    } else {
        None
    }
}

/// What a command about the watcher asks for; it takes no arguments.
pub fn run(command: &str, args: &[String]) -> (r: Result<WatchAction, Fault>)
    requires
        watch_verb(command@) is Some,
    ensures
        match r {
            Ok(action) => args@.len() == 0 && watch_verb(command@) == Some(action),
            Err(refusal) => args@.len() > 0 && refusal@ == args::misused(),
        },
{
    if args.len() > 0 {
        return Err(Fault::plain(FaultKind::Usage));
    }
    if same(command, "watch") {
        Ok(WatchAction::Foreground)
    } else if same(command, "watch-start") {
        Ok(WatchAction::Start)
    } else if same(command, "watch-status") {
        Ok(WatchAction::Status)
    } else {
        Ok(WatchAction::Stop)
    }
}

/// The process that the text of a pid file names.
pub fn pid_in(body: &str) -> (r: Option<i32>)
    ensures
        match r {
            Some(n) => text::integer(text::trimmed(body@)) == Some(n as int),
            None => text::integer(text::trimmed(body@)) is None,
        },
{
    parse_integer(trim(body).as_str())
}

/// Whether the command line of a process is that of a watcher.
pub fn is_watcher(command: &str) -> (r: bool)
    ensures
        r == (text::occurs(command@, "herdr-coordinator"@) && text::occurs(command@, "watch"@)),
{
    contains(command, "herdr-coordinator") && contains(command, "watch")
}

/// Whether the text of a pid file names this process, which then removes it.
pub fn owns_pid_file(body: &str, own: u32) -> (r: bool)
    ensures
        r == (text::natural(text::trimmed(body@)) == Some(own as nat)),
{
    match parse_natural(trim(body).as_str()) {
        Some(n) => n == own as u64,
        None => false,
    }
}

/// Whether a watcher may run in the foreground: not where Herdr runs the
/// plugin, and not where another one runs.
pub fn may_watch(plugin: bool, existing: Option<i32>, own: i32) -> (r: Result<(), Fault>)
    ensures
        match r {
            Ok(()) => !plugin && (existing is None || existing->0 == own),
            Err(refusal) => if plugin {
                refusal@ == fault::plain(FaultKind::PluginWatch)
            } else {
                existing is Some && existing->0 != own && refusal@ == fault::about(
                    FaultKind::AlreadyWatching,
                    text::signed_digits(existing->0 as int),
                )
            },
        },
{
    if plugin {
        return Err(Fault::plain(FaultKind::PluginWatch));
    }
    match existing {
        Some(pid) => if pid != own {
            Err(Fault::about(FaultKind::AlreadyWatching, decimal_signed(pid as i64).as_str()))
        } else {
            Ok(())
        },
        None => Ok(()),
    }
}

/// What is printed instead of starting a watcher; nothing where one is to be
/// started.
pub open spec fn start_line(plugin: bool, existing: Option<int>) -> Option<Seq<char>> {
    if plugin {
        Some("Plugin 模式由 Herdr startup/event hooks 维护实时状态，无独立 watcher"@)
    } else {
        match existing {
            Some(pid) => Some("事件监听器已在运行（pid "@ + text::signed_digits(pid) + "）"@),
            None => None,
        }
    }
}

pub open spec fn opt_pid(pid: Option<i32>) -> Option<int> {
    match pid {
        Some(n) => Some(n as int),
        None => None,
    }
}

/// What is printed instead of starting a watcher; nothing where one is to be
/// started.
pub fn before_start(plugin: bool, existing: Option<i32>) -> (r: Option<String>)
    ensures
        text::opt_string(r) == start_line(plugin, opt_pid(existing)),
{
    if plugin {
        return Some(
            "Plugin 模式由 Herdr startup/event hooks 维护实时状态，无独立 watcher".to_owned(),
        );
    }
    match existing {
        Some(pid) => Some(
            cat3("事件监听器已在运行（pid ", decimal_signed(pid as i64).as_str(), "）"),
        ),
        None => None,
    }
}

/// What came of a watcher that was started: the process that was seen, or
/// none in time.
pub fn after_start(seen: Option<i32>, log: &str) -> (r: Result<String, Fault>)
    ensures
        match r {
            Ok(line) => seen is Some && line@ == "事件监听器已启动（pid "@ + text::signed_digits(
                seen->0 as int,
            ) + "）"@,
            Err(refusal) => seen is None && refusal@ == fault::about(FaultKind::StartFailed, log@),
        },
{
    match seen {
        Some(pid) => Ok(
            cat3("事件监听器已启动（pid ", decimal_signed(pid as i64).as_str(), "）"),
        ),
        None => Err(Fault::about(FaultKind::StartFailed, log)),
    }
}

/// How the watcher is.
pub open spec fn status_text(plugin: bool, existing: Option<int>, runtime: JsonV) -> Seq<char> {
    let connected = runtime.flag("connected"@, false);
    if plugin {
        "Plugin 事件模式（"@ + (if connected { "已连接 Herdr"@ } else { "等待 snapshot 对账"@ })
            + "，无独立 watcher）"@
    } else {
        match existing {
            None => "事件监听器未运行"@,
            Some(pid) => "事件监听器运行中（pid "@ + text::signed_digits(pid) + "，"@ + (
            if connected { "已连接 Herdr"@ } else { "正在重连 Herdr"@ }) + "）"@,
        }
    }
}

/// How the watcher is.
pub fn status_line(plugin: bool, existing: Option<i32>, runtime: &Json) -> (r: String)
    ensures
        r@ == status_text(plugin, opt_pid(existing), runtime@),
{
    let connected = runtime.flag("connected", false);
    if plugin {
        return cat3(
            "Plugin 事件模式（",
            if connected { "已连接 Herdr" } else { "等待 snapshot 对账" },
            "，无独立 watcher）",
        );
    }
    match existing {
        None => "事件监听器未运行".to_owned(),
        Some(pid) => cat5(
            "事件监听器运行中（pid ",
            decimal_signed(pid as i64).as_str(),
            "，",
            if connected { "已连接 Herdr" } else { "正在重连 Herdr" },
            "）",
        ),
    }
}

/// What came of stopping: there was no watcher, or it has gone, or it has not
/// gone in time.
pub fn after_stop(existing: Option<i32>, gone: bool) -> (r: Result<String, Fault>)
    ensures
        match r {
            Ok(line) => if existing is None {
                line@ == "事件监听器未运行"@
            } else {
                gone && line@ == "事件监听器已停止"@
            },
            Err(refusal) => existing is Some && !gone && refusal@ == fault::plain(
                FaultKind::StopFailed,
            ),
        },
{
    if existing.is_none() {
        Ok("事件监听器未运行".to_owned())
    } else if gone {
        Ok("事件监听器已停止".to_owned())
    } else {
        Err(Fault::plain(FaultKind::StopFailed))
    }
}

/// Where the variables place the socket of Herdr.
pub struct SocketEnv {
    /// `HERDR_SOCKET_PATH`.
    pub socket: Option<String>,
    /// `HERDR_CONFIG_PATH`.
    pub config: Option<String>,
    /// `HERDR_SESSION`.
    pub session: Option<String>,
    /// `HOME`.
    pub home: Option<String>,
}

/// The directory of the configuration of Herdr.
pub open spec fn config_dir(env: SocketEnv) -> Seq<char> {
    let config = match env.config {
        Some(path) => path@,
        None => state::joined_path(state::home_of(env.home), ".config/herdr/config.toml"@),
    };
    match outside::path_parent(config) {
        Some(dir) => dir,
        None => "."@,
    }
}

/// The socket under a directory: that of a session, unless it is the default
/// one.
pub open spec fn socket_under(base: Seq<char>, session: Option<Seq<char>>) -> Seq<char> {
    match session {
        Some(name) => if name != "default"@ {
            state::joined_path(
                state::joined_path(state::joined_path(base, "sessions"@), name),
                "herdr.sock"@,
            )
        } else {
            state::joined_path(base, "herdr.sock"@)
        },
        None => state::joined_path(base, "herdr.sock"@),
    }
}

/// The socket of Herdr: the one that is named, or the one beside the
/// configuration.
pub open spec fn socket_of(env: SocketEnv) -> Seq<char> {
    match env.socket {
        Some(path) => path@,
        None => socket_under(config_dir(env), text::opt_string(env.session)),
    }
}

/// The socket under a directory.
pub fn session_socket(base: &str, session: Option<&str>) -> (r: String)
    ensures
        r@ == socket_under(base@, text::opt_text(session)),
{
    match session {
        Some(name) => {
            if !same(name, "default") {
                let sessions = join_path(base, "sessions");
                let own = join_path(sessions.as_str(), name);
                return join_path(own.as_str(), "herdr.sock");
            }
        },
        None => {},
    }
    join_path(base, "herdr.sock")
}

/// The socket of Herdr.
pub fn socket_path(env: &SocketEnv) -> (r: String)
    ensures
        r@ == socket_of(*env),
{
    match &env.socket {
        Some(path) => {
            return path.as_str().to_owned();
        },
        None => {},
    }
    let config: String = match &env.config {
        Some(path) => path.as_str().to_owned(),
        None => join_path(home_dir(&env.home).as_str(), ".config/herdr/config.toml"),
    };
    let base: String = match parent_dir(config.as_str()) {
        Some(dir) => dir,
        None => ".".to_owned(),
    };
    let session: Option<&str> = match &env.session {
        Some(name) => Some(name.as_str()),
        None => None,
    };
    session_socket(base.as_str(), session)
}

/// A request to Herdr.
pub open spec fn request_of(id: Seq<char>, method: Seq<char>, params: JsonV) -> JsonV {
    JsonV::Object(
        map!["id"@ => JsonV::Text(id), "method"@ => JsonV::Text(method), "params"@ => params],
    )
}

/// The line of a request to Herdr.
pub fn request_line(id: &str, method: &str, params: Json) -> (r: String)
    ensures
        r@ == outside::compact_json(request_of(id@, method@, params@)) + "\n"@,
{
    let mut object = Object::new();
    object.put("id", Json::text(id));
    object.put("method", Json::text(method));
    object.put("params", params);
    cat2(compact(&Json::Object(object)).as_str(), "\n")
}

/// What a message is to one who waits for the answer to a request.
pub enum Answer {
    /// The answer.
    Found(Json),
    /// Something else, to be kept for later.
    Pending(Json),
}

/// A message answers a request, and is no error.
pub open spec fn is_answer(message: JsonV, id: Seq<char>) -> bool {
    message.optional_string("id"@) == Some(id)
}

/// What a message is to one who waits for the answer to a request; an answer
/// that is an error is refused with that error.
pub fn answer_in(message: Json, id: &str) -> (r: Result<Answer, Fault>)
    ensures
        match r {
            Ok(Answer::Found(value)) => value@ == message@ && is_answer(message@, id@)
                && message@.get("error"@) is None,
            Ok(Answer::Pending(value)) => value@ == message@ && !is_answer(message@, id@),
            Err(refusal) => is_answer(message@, id@) && message@.get("error"@) is Some && refusal@
                == fault::about(
                FaultKind::Foreign,
                outside::compact_json(message@.get("error"@)->0),
            ),
        },
{
    let own = match optional_string(&message, "id") {
        Some(found) => same(found.as_str(), id),
        None => false,
    };
    if !own {
        return Ok(Answer::Pending(message));
    }
    match message.get("error") {
        Some(error) => Err(Fault::about(FaultKind::Foreign, compact(error).as_str())),
        None => Ok(Answer::Found(message)),
    }
}

/// The message in a line from Herdr, or the words of the parser.
pub fn message_in(line: &str) -> (r: Result<Json, Fault>)
    ensures
        match r {
            Ok(message) => outside::parses_to(line@, message@),
            Err(refusal) => refusal@.kind == FaultKind::Foreign && outside::parse_fails(
                line@,
                refusal@.subject,
            ),
        },
{
    match parse_json(line) {
        Ok(message) => Ok(message),
        Err(words) => Err(Fault::about(FaultKind::Foreign, words.as_str())),
    }
}

/// The snapshot in the answer of a session.
pub fn session_snapshot(answer: &Json) -> (r: Result<Json, Fault>)
    ensures
        match r {
            Ok(snapshot) => answer@.at("result"@).get("snapshot"@) == Some(snapshot@),
            Err(refusal) => answer@.at("result"@).get("snapshot"@) is None && refusal@
                == fault::plain(FaultKind::NoSessionSnapshot),
        },
{
    match answer.at("result").get("snapshot") {
        Some(snapshot) => Ok(snapshot.clone()),
        None => Err(Fault::plain(FaultKind::NoSessionSnapshot)),
    }
}

/// The events after which the panes are to be looked at anew.
pub open spec fn topology_events() -> Seq<Seq<char>> {
    seq![
        "workspace.created"@,
        "workspace.closed"@,
        "tab.created"@,
        "tab.closed"@,
        "pane.created"@,
        "pane.closed"@,
        "pane.moved"@,
        "pane.exited"@,
        "pane.agent_detected"@,
    ]
}

/// The events that have a name with a dot.
pub open spec fn canonical_events() -> Seq<Seq<char>> {
    topology_events().push("pane.agent_status_changed"@)
}

fn topology_names() -> (r: Vec<String>)
    ensures
        text::texts(r@) == topology_events(),
{
    let mut out: Vec<String> = Vec::new();
    out.push("workspace.created".to_owned());
    out.push("workspace.closed".to_owned());
    out.push("tab.created".to_owned());
    out.push("tab.closed".to_owned());
    out.push("pane.created".to_owned());
    out.push("pane.closed".to_owned());
    out.push("pane.moved".to_owned());
    out.push("pane.exited".to_owned());
    out.push("pane.agent_detected".to_owned());
    proof {
        assert(text::texts(out@) =~= topology_events());
    }
    out
}

/// The panes of agents, each as often as it is named there.
pub open spec fn panes_named(agents: Seq<JsonV>) -> Members
    decreases agents.len(),
{
    if agents.len() == 0 {
        Map::empty()
    } else {
        let rest = panes_named(agents.drop_last());
        match agents.last().optional_string("pane_id"@) {
            Some(pane) => rest.insert(pane, JsonV::Null),
            None => rest,
        }
    }
}

/// The panes of agents, each once and in order.
pub open spec fn panes_of(agents: Seq<JsonV>) -> Seq<Seq<char>> {
    json::name_order(panes_named(agents))
}

fn agent_panes(agents: &Vec<Json>) -> (r: Vec<String>)
    ensures
        text::texts(r@) == panes_of(json::views(agents@)),
{
    let ghost all = json::views(agents@);
    let mut panes = Object::new();
    let mut i: usize = 0;
    proof {
        assert(all.take(0) =~= Seq::empty());
    }
    while i < agents.len()
        invariant
            i <= agents.len(),
            all == json::views(agents@),
            panes@ == panes_named(all.take(i as int)),
        decreases agents.len() - i,
    {
        proof {
            assert(all.take(i + 1).drop_last() =~= all.take(i as int));
            assert(all.take(i + 1).last() == agents@[i as int]@);
        }
        match optional_string(&agents[i], "pane_id") {
            Some(pane) => {
                panes.put(pane.as_str(), Json::Null);
            },
            None => {},
        }
        i = i + 1;
    }
    proof {
        assert(all.take(i as int) =~= all);
    }
    panes.names()
}

/// The subscription to a kind of event.
pub open spec fn kind_subscription(kind: Seq<char>) -> JsonV {
    JsonV::Object(map!["type"@ => JsonV::Text(kind)])
}

/// The subscription to the status of a pane.
pub open spec fn pane_subscription(pane: Seq<char>) -> JsonV {
    JsonV::Object(
        map![
            "type"@ => JsonV::Text("pane.agent_status_changed"@),
            "pane_id"@ => JsonV::Text(pane),
        ],
    )
}

/// What is subscribed to: every event on panes coming and going, and the
/// status of every pane with an agent, once each.
pub open spec fn subscribed(snapshot: JsonV) -> Seq<JsonV> {
    topology_events().map_values(|kind: Seq<char>| kind_subscription(kind)) + panes_of(
        runtime::agents_of(snapshot),
    ).map_values(|pane: Seq<char>| pane_subscription(pane))
}

/// What is subscribed to.
pub fn subscriptions(snapshot: &Json) -> (r: Json)
    ensures
        r@ == JsonV::Array(subscribed(snapshot@)),
{
    let kinds = topology_names();
    let panes = agent_panes(&runtime::snapshot_agents(snapshot));
    let ghost goal = subscribed(snapshot@);
    let ghost order = panes_of(runtime::agents_of(snapshot@));
    let mut out: Vec<Json> = Vec::new();
    let mut i: usize = 0;
    proof {
        assert(text::texts(kinds@).len() == kinds@.len());
        assert(text::texts(panes@).len() == panes@.len());
        assert(json::views(out@) =~= goal.take(0));
    }
    while i < kinds.len()
        invariant
            i <= kinds.len(),
            kinds.len() == topology_events().len(),
            text::texts(kinds@) == topology_events(),
            goal == subscribed(snapshot@),
            json::views(out@) == goal.take(i as int),
        decreases kinds.len() - i,
    {
        let mut object = Object::new();
        object.put("type", Json::text(kinds[i].as_str()));
        let item = Json::Object(object);
        proof {
            json::lemma_views_push(out@, item);
            assert(topology_events()[i as int] == kinds@[i as int]@);
            assert(goal[i as int] == item@);
            assert(goal.take(i as int).push(item@) =~= goal.take(i + 1));
        }
        out.push(item);
        i = i + 1;
    }
    let mut n: usize = 0;
    while n < panes.len()
        invariant
            n <= panes.len(),
            kinds.len() == topology_events().len(),
            panes.len() == order.len(),
            text::texts(panes@) == order,
            order == panes_of(runtime::agents_of(snapshot@)),
            goal == subscribed(snapshot@),
            json::views(out@) == goal.take(kinds.len() + n),
        decreases panes.len() - n,
    {
        let mut object = Object::new();
        object.put("type", Json::text("pane.agent_status_changed"));
        object.put("pane_id", Json::text(panes[n].as_str()));
        let item = Json::Object(object);
        proof {
            json::lemma_views_push(out@, item);
            assert(order[n as int] == panes@[n as int]@);
            assert(goal[kinds.len() + n] == item@);
            assert(goal.take(kinds.len() + n).push(item@) =~= goal.take(kinds.len() + n + 1));
        }
        out.push(item);
        n = n + 1;
    }
    proof {
        assert(goal.take(kinds.len() + n) =~= goal);
    }
    Json::Array(out)
}

/// The name that an event comes under: that of the message, or else the type
/// in its data.
pub open spec fn raw_event(message: JsonV) -> Seq<char> {
    let found = match message.get("event"@) {
        Some(name) => Some(name),
        None => message.at("data"@).get("type"@),
    };
    match found {
        Some(name) => match name.as_text() {
            Some(text) => text,
            None => Seq::empty(),
        },
        None => Seq::empty(),
    }
}

/// The first of the names that reads `raw` with underscores for dots, or `raw`
/// itself.
pub open spec fn dotted(names: Seq<Seq<char>>, raw: Seq<char>) -> Seq<char>
    decreases names.len(),
{
    if names.len() == 0 {
        raw
    } else if text::replaced(names[0], '.', '_') == raw {
        names[0]
    } else {
        dotted(names.drop_first(), raw)
    }
}

/// The name of an event: one with a dot is taken as it is, and one without is
/// looked up among the known names.
pub open spec fn name_of_event(raw: Seq<char>) -> Seq<char> {
    if text::occurs(raw, "."@) {
        raw
    } else {
        dotted(canonical_events(), raw)
    }
}

fn find_dotted(names: &Vec<String>, raw: &str) -> (r: String)
    ensures
        r@ == dotted(text::texts(names@), raw@),
{
    let ghost all = text::texts(names@);
    let mut i: usize = 0;
    proof {
        assert(all.skip(0) =~= all);
    }
    while i < names.len()
        invariant
            i <= names.len(),
            all == text::texts(names@),
            dotted(all, raw@) == dotted(all.skip(i as int), raw@),
        decreases names.len() - i,
    {
        proof {
            assert(all.skip(i as int)[0] == names@[i as int]@);
            assert(all.skip(i as int).drop_first() =~= all.skip(i + 1));
        }
        if same_replaced(names[i].as_str(), '.', '_', raw) {
            return names[i].as_str().to_owned();
        }
        i = i + 1;
    }
    proof {
        assert(all.skip(i as int).len() == 0);
    }
    raw.to_owned()
}

/// The name of the event that a message is about.
pub fn event_name(message: &Json) -> (r: String)
    ensures
        r@ == name_of_event(raw_event(message@)),
{
    let found: Option<Json> = match message.get("event") {
        Some(name) => Some(name.clone()),
        None => match message.at("data").get("type") {
            Some(name) => Some(name.clone()),
            None => None,
        },
    };
    let raw: String = match &found {
        Some(name) => match name.as_str() {
            Some(text) => text.to_owned(),
            None => String::new(),
        },
        None => String::new(),
    };
    if contains(raw.as_str(), ".") {
        return raw;
    }
    let mut names = topology_names();
    let ghost before = names@;
    let last = "pane.agent_status_changed".to_owned();
    names.push(last);
    proof {
        assert(text::texts(names@) =~= text::texts(before).push(last@));
    }
    find_dotted(&names, raw.as_str())
}

/// The members of an agent or pane that a status event carries.
pub open spec fn status_fields() -> Seq<Seq<char>> {
    seq!["agent_status"@, "agent"@, "display_agent"@, "title"@, "state_labels"@]
}

/// The members after the first `count` fields were taken over where the data
/// has them.
pub open spec fn with_fields(members: Members, data: JsonV, count: int) -> Members
    decreases count,
{
    if count <= 0 {
        members
    } else {
        let rest = with_fields(members, data, count - 1);
        match data.get(status_fields()[count - 1]) {
            Some(value) => rest.insert(status_fields()[count - 1], value),
            None => rest,
        }
    }
}

/// An agent or pane after a status event on a pane: only that pane changes.
pub open spec fn item_after(item: JsonV, pane: Seq<char>, data: JsonV) -> JsonV {
    if item.optional_string("pane_id"@) == Some(pane) {
        JsonV::Object(with_fields(item->Object_0, data, status_fields().len() as int))
    } else {
        item
    }
}

/// A list in a snapshot after a status event on a pane.
pub open spec fn list_after(snapshot: JsonV, name: Seq<char>, pane: Seq<char>, data: JsonV) -> JsonV {
    match snapshot {
        JsonV::Object(members) => if members.contains_key(name) && members[name] is Array {
            JsonV::Object(
                members.insert(
                    name,
                    JsonV::Array(
                        members[name].items().map_values(
                            |item: JsonV| item_after(item, pane, data),
                        ),
                    ),
                ),
            )
        } else {
            snapshot
        },
        _ => snapshot,
    }
}

/// The pane that a status event is about; none where the message is another
/// event.
pub open spec fn status_pane(message: JsonV) -> Option<Seq<char>> {
    if name_of_event(raw_event(message)) == "pane.agent_status_changed"@ {
        message.at("data"@).optional_string("pane_id"@)
    } else {
        None
    }
}

/// A snapshot after a message: a status event is taken over, and any other
/// changes nothing.
pub open spec fn snapshot_after(snapshot: JsonV, message: JsonV) -> JsonV {
    match status_pane(message) {
        Some(pane) => list_after(
            list_after(snapshot, "agents"@, pane, message.at("data"@)),
            "panes"@,
            pane,
            message.at("data"@),
        ),
        None => snapshot,
    }
}

fn take_field(object: &mut Object, data: &Json, name: &str)
    ensures
        final(object)@ == match data@.get(name@) {
            Some(value) => old(object)@.insert(name@, value),
            None => old(object)@,
        },
{
    match data.get(name) {
        Some(value) => {
            object.put(name, value.clone());
        },
        None => {},
    }
}

fn updated_item(item: &Json, pane: &str, data: &Json) -> (r: Json)
    ensures
        r@ == item_after(item@, pane@, data@),
{
    let own = match optional_string(item, "pane_id") {
        Some(found) => same(found.as_str(), pane),
        None => false,
    };
    if !own {
        return item.clone();
    }
    match item {
        Json::Object(members) => {
            let mut object = members.clone();
            let ghost start = object@;
            take_field(&mut object, data, "agent_status");
            take_field(&mut object, data, "agent");
            take_field(&mut object, data, "display_agent");
            take_field(&mut object, data, "title");
            take_field(&mut object, data, "state_labels");
            proof {
                reveal_with_fuel(with_fields, 6);
                assert(with_fields(start, data@, 0) == start);
                assert(object@ == with_fields(start, data@, 5));
            }
            Json::Object(object)
        },
        _ => item.clone(),
    }
}

fn update_list(snapshot: &Json, name: &str, pane: &str, data: &Json) -> (r: Json)
    ensures
        r@ == list_after(snapshot@, name@, pane@, data@),
{
    let members: Object = match snapshot {
        Json::Object(members) => members.clone(),
        _ => {
            return snapshot.clone();
        },
    };
    let items: Vec<Json> = match members.get(name) {
        Some(Json::Array(items)) => json::clone_items(items),
        _ => {
            return snapshot.clone();
        },
    };
    let ghost model = json::views(items@);
    let ghost goal = model.map_values(|item: JsonV| item_after(item, pane@, data@));
    let mut out: Vec<Json> = Vec::new();
    let mut i: usize = 0;
    proof {
        assert(json::views(out@) =~= goal.take(0));
    }
    while i < items.len()
        invariant
            i <= items.len(),
            model == json::views(items@),
            goal == model.map_values(|item: JsonV| item_after(item, pane@, data@)),
            json::views(out@) == goal.take(i as int),
        decreases items.len() - i,
    {
        let item = updated_item(&items[i], pane, data);
        proof {
            json::lemma_views_push(out@, item);
            assert(model[i as int] == items@[i as int]@);
            assert(goal.take(i as int).push(item@) =~= goal.take(i + 1));
        }
        out.push(item);
        i = i + 1;
    }
    proof {
        assert(goal.take(i as int) =~= goal);
    }
    let mut object = members;
    object.put(name, Json::Array(out));
    Json::Object(object)
}

/// Takes a status event over into a snapshot. Gives whether the message was
/// one.
pub fn apply_status(snapshot: &mut Json, message: &Json) -> (r: bool)
    ensures
        r == (status_pane(message@) is Some),
        final(snapshot)@ == snapshot_after(old(snapshot)@, message@),
{
    if !same(event_name(message).as_str(), "pane.agent_status_changed") {
        return false;
    }
    let data = message.at("data");
    match optional_string(&data, "pane_id") {
        Some(pane) => {
            let first = update_list(snapshot, "agents", pane.as_str(), &data);
            let second = update_list(&first, "panes", pane.as_str(), &data);
            *snapshot = second;
            true
        },
        None => false,
    }
}

/// Whether the panes are to be looked at anew after a message.
pub open spec fn changes_topology(message: JsonV) -> bool {
    topology_events().contains(message.string("event"@))
}

/// What becomes of the state and the snapshot when a message comes, or why the
/// connection ends.
pub open spec fn message_step(
    files: Texts,
    snapshot: JsonV,
    message: JsonV,
    clock: ClockV,
) -> Result<(Texts, JsonV), FaultV> {
    if changes_topology(message) {
        Err(fault::plain(FaultKind::TopologyChanged))
    } else {
        Ok(status_step(files, snapshot, message, clock))
    }
}

/// What becomes of the state and the snapshot when a message is taken as a
/// status event.
pub open spec fn status_step(
    files: Texts,
    snapshot: JsonV,
    message: JsonV,
    clock: ClockV,
) -> (Texts, JsonV) {
    let after = snapshot_after(snapshot, message);
    if status_pane(message) is Some {
        (
            herdr::observed(files, after, true, None, "watch"@, Some(message), clock),
            after,
        )
    } else {
        (files, after)
    }
}

/// What a status event wrote is what is read.
pub open spec fn reads_status(
    files: Texts,
    snapshot: JsonV,
    message: JsonV,
    clock: ClockV,
    after: Texts,
) -> bool {
    status_pane(message) is Some ==> herdr::reads_observed(
        files,
        snapshot_after(snapshot, message),
        true,
        None,
        "watch"@,
        Some(message),
        clock,
        after,
    )
}

/// Takes a message in that came before the subscription was answered.
pub fn on_early_message_at(state: &mut State, snapshot: &mut Json, message: &Json, clock: &Clock)
    ensures
        final(state).dir == old(state).dir,
        (final(state).files@, final(snapshot)@) == status_step(
            old(state).files@,
            old(snapshot)@,
            message@,
            clock@,
        ),
        reads_status(
            old(state).files@,
            old(snapshot)@,
            message@,
            clock@,
            final(state).files@,
        ),
{
    if apply_status(snapshot, message) {
        observe_at(state, snapshot, true, None, "watch", Some(message), clock);
    }
}

/// Takes a message in; where the panes have changed, the connection is to be
/// made anew.
pub fn on_message_at(
    state: &mut State,
    snapshot: &mut Json,
    message: &Json,
    clock: &Clock,
) -> (r: Result<(), Fault>)
    ensures
        final(state).dir == old(state).dir,
        match message_step(old(state).files@, old(snapshot)@, message@, clock@) {
            Ok(after) => r is Ok && (final(state).files@, final(snapshot)@) == after,
            Err(reason) => r is Err && r->Err_0@ == reason && final(state).files@
                == old(state).files@ && final(snapshot)@ == old(snapshot)@,
        },
        r is Ok ==> reads_status(
            old(state).files@,
            old(snapshot)@,
            message@,
            clock@,
            final(state).files@,
        ),
{
    let kinds = topology_names();
    if text::listed(kinds.as_slice(), string(message, "event").as_str()) {
        return Err(Fault::plain(FaultKind::TopologyChanged));
    }
    on_early_message_at(state, snapshot, message, clock);
    Ok(())
}

/// The files while the watcher connects: nothing is known to be connected.
pub open spec fn connecting(files: Texts, observed: Seq<char>) -> Texts {
    state::written(
        files,
        "runtime.json"@,
        upkeep::runtime_from(
            files,
            runtime::remembered(state::runtime_doc(files)),
            false,
            Some("正在建立 Herdr 事件订阅"@),
            "watch"@,
            None,
            observed,
        ),
    )
}

/// What was written while the watcher connects is what is read.
pub open spec fn reads_connecting(files: Texts, observed: Seq<char>, after: Texts) -> bool {
    state::read_as(
        upkeep::runtime_from(
            files,
            runtime::remembered(state::runtime_doc(files)),
            false,
            Some("正在建立 Herdr 事件订阅"@),
            "watch"@,
            None,
            observed,
        ),
        state::runtime_doc(after),
    )
}

/// Notes that the watcher connects.
pub fn on_connecting_at(state: &mut State, observed: &str)
    ensures
        final(state).dir == old(state).dir,
        final(state).files@ == connecting(old(state).files@, observed@),
        reads_connecting(old(state).files@, observed@, final(state).files@),
{
    let known = baseline(&state.runtime());
    state.write_runtime_at(
        &known,
        false,
        Some("正在建立 Herdr 事件订阅"),
        "watch",
        None,
        observed,
    );
}

/// Notes that the watcher connects.
pub fn on_connecting(state: &mut State)
    ensures
        final(state).dir == old(state).dir,
        exists|observed: Seq<char>|
            {
                &&& outside::plain_time(observed) is Some
                &&& final(state).files@ == #[trigger] connecting(old(state).files@, observed)
                &&& reads_connecting(old(state).files@, observed, final(state).files@)
            },
{
    let time = now();
    on_connecting_at(state, time.as_str());
}

/// The files after the connection was lost: what was observed is remembered,
/// and the reason is noted.
pub open spec fn disconnected(files: Texts, error: Seq<char>, clock: ClockV) -> Texts {
    herdr::observed(
        files,
        runtime::remembered(state::runtime_doc(files)),
        false,
        Some(error),
        "watch"@,
        None,
        clock,
    )
}

/// What was written when the connection was lost is what is read.
pub open spec fn reads_disconnected(
    files: Texts,
    error: Seq<char>,
    clock: ClockV,
    after: Texts,
) -> bool {
    &&& depth::is_shallow(runtime::remembered(state::runtime_doc(files)))
    &&& herdr::reads_observed(
        files,
        runtime::remembered(state::runtime_doc(files)),
        false,
        Some(error),
        "watch"@,
        None,
        clock,
        after,
    )
}

/// Notes that the connection was lost.
pub fn on_disconnected_at(state: &mut State, error: &str, clock: &Clock)
    ensures
        final(state).dir == old(state).dir,
        final(state).files@ == disconnected(old(state).files@, error@, clock@),
        reads_disconnected(old(state).files@, error@, clock@, final(state).files@),
{
    let known = baseline(&state.runtime());
    observe_at(state, &known, false, Some(error), "watch", None, clock);
}

/// Notes that the connection was lost.
pub fn on_disconnected(state: &mut State, error: &str)
    ensures
        final(state).dir == old(state).dir,
        exists|clock: ClockV|
            {
                &&& outside::plain_time(clock.text) is Some
                &&& final(state).files@ == #[trigger] disconnected(
                    old(state).files@,
                    error@,
                    clock,
                )
                &&& reads_disconnected(old(state).files@, error@, clock, final(state).files@)
            },
{
    let clock = Clock::read();
    on_disconnected_at(state, error, &clock);
}

/// Takes the snapshot of a new connection in.
pub fn on_connected(state: &mut State, snapshot: &Json)
    ensures
        final(state).dir == old(state).dir,
        exists|clock: ClockV|
            {
                &&& outside::plain_time(clock.text) is Some
                &&& final(state).files@ == #[trigger] herdr::observed(
                    old(state).files@,
                    snapshot@,
                    true,
                    None,
                    "watch"@,
                    None,
                    clock,
                )
                &&& herdr::reads_observed(
                    old(state).files@,
                    snapshot@,
                    true,
                    None,
                    "watch"@,
                    None,
                    clock,
                    final(state).files@,
                )
            },
{
    let clock = Clock::read();
    observe_at(state, snapshot, true, None, "watch", None, &clock);
}

/// Takes a message in that came before the subscription was answered.
pub fn on_early_message(state: &mut State, snapshot: &mut Json, message: &Json)
    ensures
        final(state).dir == old(state).dir,
        exists|clock: ClockV|
            {
                &&& outside::plain_time(clock.text) is Some
                &&& (final(state).files@, final(snapshot)@) == #[trigger] status_step(
                    old(state).files@,
                    old(snapshot)@,
                    message@,
                    clock,
                )
                &&& reads_status(
                    old(state).files@,
                    old(snapshot)@,
                    message@,
                    clock,
                    final(state).files@,
                )
            },
{
    let clock = Clock::read();
    on_early_message_at(state, snapshot, message, &clock);
}

/// Takes a message in; where the panes have changed, the connection is to be
/// made anew.
pub fn on_message(state: &mut State, snapshot: &mut Json, message: &Json) -> (r: Result<(), Fault>)
    ensures
        final(state).dir == old(state).dir,
        exists|clock: ClockV|
            outside::plain_time(clock.text) is Some && match #[trigger] message_step(
                old(state).files@,
                old(snapshot)@,
                message@,
                clock,
            ) {
                Ok(after) => r is Ok && (final(state).files@, final(snapshot)@) == after
                    && reads_status(
                    old(state).files@,
                    old(snapshot)@,
                    message@,
                    clock,
                    final(state).files@,
                ),
                Err(reason) => r is Err && r->Err_0@ == reason && final(state).files@
                    == old(state).files@ && final(snapshot)@ == old(snapshot)@,
            },
{
    let clock = Clock::read();
    on_message_at(state, snapshot, message, &clock)
}

/// How long the watcher first waits before it connects again, in milliseconds.
pub const FIRST_DELAY_MS: u64 = 250;

/// How long the watcher waits at most, in milliseconds.
pub const LAST_DELAY_MS: u64 = 5000;

/// How many pauses of fifty milliseconds a delay is made of, at least one.
pub fn pauses(delay: u64) -> (r: u64)
    ensures
        r as int == if delay / 50 >= 1 {
            delay as int / 50
        } else {
            1
        },
{
    if delay / 50 >= 1 {
        delay / 50
    } else {
        1
    }
}

/// How long the watcher waits the next time: twice as long, up to the limit.
pub fn next_delay(delay: u64) -> (r: u64)
    requires
        delay <= LAST_DELAY_MS,
    ensures
        r as int == if 2 * delay <= LAST_DELAY_MS {
            2 * delay as int
        } else {
            LAST_DELAY_MS as int
        },
        FIRST_DELAY_MS <= delay ==> FIRST_DELAY_MS <= r,
        r <= LAST_DELAY_MS,
{
    if delay * 2 <= LAST_DELAY_MS {
        delay * 2
    } else {
        LAST_DELAY_MS
    }
}

/// What the watcher does when a connection has ended.
#[derive(Debug, Clone, Copy, PartialEq, Eq, Structural)]
pub enum Turn {
    /// Stop watching.
    End,
    /// Connect again at once.
    Connect,
    /// Note that the connection was lost, pause so many times, and connect
    /// again.
    Retry(u64),
}

/// What the watcher does when a connection has ended, well or not, and how long
/// it waits the next time one is lost: a connection that ended well resets the
/// wait, one that was lost doubles it, and a request to terminate ends all.
pub fn after_connection(ended_well: bool, terminate: bool, delay: u64) -> (r: (Turn, u64))
    requires
        delay <= LAST_DELAY_MS,
    ensures
        r.1 <= LAST_DELAY_MS,
        if terminate {
            r == (Turn::End, delay)
        } else if ended_well {
            r == (Turn::Connect, FIRST_DELAY_MS)
        } else {
            &&& r.0 == Turn::Retry(if delay / 50 >= 1 { delay / 50 } else { 1 })
            &&& r.1 == if 2 * delay <= LAST_DELAY_MS {
                2 * delay as int
            } else {
                LAST_DELAY_MS as int
            }
        },
{
    if terminate {
        (Turn::End, delay)
    } else if ended_well {
        (Turn::Connect, FIRST_DELAY_MS)
    } else {
        (Turn::Retry(pauses(delay)), next_delay(delay))
    }
}

/// How often it is looked whether a watcher has started or gone.
pub const POLLS: u64 = 40;

/// Whether it is looked once more, after so many times, whether a watcher has
/// started or gone.
pub fn keeps_polling(polls: u64, settled: bool) -> (r: bool)
    ensures
        r == (polls < POLLS && !settled),
{
    polls < POLLS && !settled
}

} // verus!
