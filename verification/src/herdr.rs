//! What Herdr says, and what the state makes of it: snapshots, plugin events
//! and panes.
use vstd::prelude::*;
use crate::attention::{Clock, ClockV};
use crate::depth;
use crate::fault::{Fault, FaultKind, FaultV};
use crate::fault;
use crate::json::{Json, JsonV, Object};
use crate::json;
use crate::outside::parse_json;
use crate::outside;
use crate::records::PLUGIN_ID;
use crate::runtime::baseline;
use crate::runtime;
use crate::shallow;
use crate::state::State;
use crate::state;
use crate::text;
use crate::text::{cat3, cat5, decimal, same, trim};
use crate::textmap::Texts;
use crate::upkeep;

verus! {

/// A member, or the value itself where it is missing.
pub open spec fn member_or_self(value: JsonV, name: Seq<char>) -> JsonV {
    match value.get(name) {
        Some(member) => member,
        None => value,
    }
}

fn within<'a>(value: &'a Json, name: &str) -> (r: &'a Json)
    ensures
        r@ == member_or_self(value@, name@),
{
    match value.get(name) {
        Some(member) => member,
        None => value,
    }
}

/// The snapshot in what Herdr printed: it may stand in a result, and within
/// that under its name.
pub open spec fn snapshot_in(printed: Seq<char>) -> Result<JsonV, FaultV> {
    match outside::parsed_json(printed) {
        Err(words) => Err(fault::about(FaultKind::BadSnapshot, words)),
        Ok(payload) => {
            let snapshot = member_or_self(member_or_self(payload, "result"@), "snapshot"@);
            if snapshot is Object {
                Ok(snapshot)
            } else {
                Err(fault::plain(FaultKind::NoSnapshot))
            }
        },
    }
}

/// The snapshot in what `herdr api snapshot` printed.
pub fn read_snapshot(printed: &str) -> (r: Result<Json, Fault>)
    ensures
        match r {
            Ok(snapshot) => snapshot_in(printed@) == Ok::<JsonV, FaultV>(snapshot@),
            Err(refusal) => snapshot_in(printed@) == Err::<JsonV, FaultV>(refusal@),
        },
        r is Ok ==> depth::is_shallow(r->Ok_0@),
{
    match parse_json(printed) {
        Err(words) => Err(Fault::about(FaultKind::BadSnapshot, words.as_str())),
        Ok(payload) => {
            proof {
                shallow::lemma_within(payload@, "result"@);
                shallow::lemma_within(member_or_self(payload@, "result"@), "snapshot"@);
            }
            snapshot_within(&payload)
        },
    }
}

/// The snapshot that a call of `herdr api snapshot` gave, or what it complained
/// of where it failed.
pub fn snapshot_from(success: bool, printed: &str, complaint: &str) -> (r: Result<Json, Fault>)
    ensures
        match r {
            Ok(snapshot) => success && snapshot_in(printed@) == Ok::<JsonV, FaultV>(snapshot@),
            Err(refusal) => if success {
                snapshot_in(printed@) == Err::<JsonV, FaultV>(refusal@)
            } else {
                refusal@ == fault::about(FaultKind::Foreign, text::trimmed(complaint@))
            },
        },
        r is Ok ==> depth::is_shallow(r->Ok_0@),
{
    if success {
        read_snapshot(printed)
    } else {
        Err(Fault::about(FaultKind::Foreign, trim(complaint).as_str()))
    }
}

/// The snapshot in a value that Herdr printed.
pub fn snapshot_within(payload: &Json) -> (r: Result<Json, Fault>)
    ensures
        ({
            let snapshot = member_or_self(member_or_self(payload@, "result"@), "snapshot"@);
            match r {
                Ok(found) => snapshot is Object && found@ == snapshot,
                Err(refusal) => !(snapshot is Object) && refusal@ == fault::plain(
                    FaultKind::NoSnapshot,
                ),
            }
        }),
{
    let snapshot = within(within(payload, "result"), "snapshot");
    match snapshot {
        Json::Object(_) => Ok(snapshot.clone()),
        _ => Err(Fault::plain(FaultKind::NoSnapshot)),
    }
}

/// The files with the runtime document that a snapshot gives.
pub open spec fn projected(
    files: Texts,
    snapshot: JsonV,
    connected: bool,
    error: Option<Seq<char>>,
    source: Seq<char>,
    last_event: Option<JsonV>,
    now: Seq<char>,
) -> Texts {
    state::written(
        files,
        "runtime.json"@,
        upkeep::runtime_from(files, snapshot, connected, error, source, last_event, now),
    )
}

/// The files after a snapshot was observed: the runtime document is written
/// and the attention queue is rebuilt.
pub open spec fn observed(
    files: Texts,
    snapshot: JsonV,
    connected: bool,
    error: Option<Seq<char>>,
    source: Seq<char>,
    last_event: Option<JsonV>,
    clock: ClockV,
) -> Texts {
    upkeep::refreshed(
        projected(files, snapshot, connected, error, source, last_event, clock.text),
        clock,
    )
}

/// What observing a snapshot wrote is what is read.
pub open spec fn reads_observed(
    files: Texts,
    snapshot: JsonV,
    connected: bool,
    error: Option<Seq<char>>,
    source: Seq<char>,
    last_event: Option<JsonV>,
    clock: ClockV,
    after: Texts,
) -> bool {
    &&& upkeep::reads_runtime(
        snapshot,
        last_event,
        upkeep::runtime_from(files, snapshot, connected, error, source, last_event, clock.text),
        after,
    )
    &&& state::reads_list(
        after,
        "attention.json"@,
        upkeep::queue_of(
            projected(files, snapshot, connected, error, source, last_event, clock.text),
            clock,
        ),
    )
}

/// Writes the runtime document that a snapshot gives, and rebuilds the
/// attention queue. Gives the number of agents.
pub fn observe_at(
    state: &mut State,
    snapshot: &Json,
    connected: bool,
    error: Option<&str>,
    source: &str,
    last_event: Option<&Json>,
    clock: &Clock,
) -> (r: u64)
    ensures
        final(state).dir == old(state).dir,
        final(state).files@ == observed(
            old(state).files@,
            snapshot@,
            connected,
            text::opt_text(error),
            source@,
            json::opt_json(last_event),
            clock@,
        ),
        reads_observed(
            old(state).files@,
            snapshot@,
            connected,
            text::opt_text(error),
            source@,
            json::opt_json(last_event),
            clock@,
            final(state).files@,
        ),
        r as int == runtime::agents_of(snapshot@).len(),
{
    state.write_runtime_at(
        snapshot,
        connected,
        error,
        source,
        last_event,
        clock.text.as_str(),
    );
    let ghost between = state.files@;
    state.refresh_attention_at(clock);
    proof {
        reveal_strlit("runtime.json");
        reveal_strlit("attention.json");
        assert("runtime.json"@.len() != "attention.json"@.len());
        assert(state::runtime_doc(state.files@) == state::runtime_doc(between));
    }
    let agents = runtime::snapshot_agents(snapshot);
    proof {
        assert(json::views(agents@).len() == agents@.len());
    }
    agents.len() as u64
}

/// Takes a snapshot in that was asked for by hand, and gives the line to print.
pub fn finish_sync_at(state: &mut State, snapshot: &Json, clock: &Clock) -> (r: String)
    ensures
        final(state).dir == old(state).dir,
        final(state).files@ == observed(
            old(state).files@,
            snapshot@,
            true,
            None,
            "manual_sync"@,
            None,
            clock@,
        ),
        reads_observed(
            old(state).files@,
            snapshot@,
            true,
            None,
            "manual_sync"@,
            None,
            clock@,
            final(state).files@,
        ),
        r@ == "已从 Herdr 快照恢复 "@ + text::digits(runtime::agents_of(snapshot@).len())
            + " 个 Agent 的实时基线"@,
{
    let agents: u64 = observe_at(state, snapshot, true, None, "manual_sync", None, clock);
    cat3("已从 Herdr 快照恢复 ", decimal(agents).as_str(), " 个 Agent 的实时基线")
}

/// Takes a snapshot in that was asked for by hand, and gives the line to print.
pub fn finish_sync(state: &mut State, snapshot: &Json) -> (r: String)
    ensures
        final(state).dir == old(state).dir,
        exists|clock: ClockV|
            {
                &&& outside::plain_time(clock.text) is Some
                &&& final(state).files@ == #[trigger] observed(
                    old(state).files@,
                    snapshot@,
                    true,
                    None,
                    "manual_sync"@,
                    None,
                    clock,
                )
                &&& reads_observed(
                    old(state).files@,
                    snapshot@,
                    true,
                    None,
                    "manual_sync"@,
                    None,
                    clock,
                    final(state).files@,
                )
            },
        r@ == "已从 Herdr 快照恢复 "@ + text::digits(runtime::agents_of(snapshot@).len())
            + " 个 Agent 的实时基线"@,
{
    let clock = Clock::read();
    finish_sync_at(state, snapshot, &clock)
}

/// Takes the snapshot of a starting plugin in, and gives the line to print.
pub fn finish_reconcile_at(state: &mut State, snapshot: &Json, clock: &Clock) -> (r: String)
    ensures
        final(state).dir == old(state).dir,
        final(state).files@ == observed(
            old(state).files@,
            snapshot@,
            true,
            None,
            "plugin_startup"@,
            None,
            clock@,
        ),
        reads_observed(
            old(state).files@,
            snapshot@,
            true,
            None,
            "plugin_startup"@,
            None,
            clock@,
            final(state).files@,
        ),
        r@ == "plugin reconciled: "@ + text::digits(runtime::agents_of(snapshot@).len())
            + " agents"@,
{
    let agents: u64 = observe_at(state, snapshot, true, None, "plugin_startup", None, clock);
    cat3("plugin reconciled: ", decimal(agents).as_str(), " agents")
}

/// Takes the snapshot of a starting plugin in, and gives the line to print.
pub fn finish_reconcile(state: &mut State, snapshot: &Json) -> (r: String)
    ensures
        final(state).dir == old(state).dir,
        exists|clock: ClockV|
            {
                &&& outside::plain_time(clock.text) is Some
                &&& final(state).files@ == #[trigger] observed(
                    old(state).files@,
                    snapshot@,
                    true,
                    None,
                    "plugin_startup"@,
                    None,
                    clock,
                )
                &&& reads_observed(
                    old(state).files@,
                    snapshot@,
                    true,
                    None,
                    "plugin_startup"@,
                    None,
                    clock,
                    final(state).files@,
                )
            },
        r@ == "plugin reconciled: "@ + text::digits(runtime::agents_of(snapshot@).len())
            + " agents"@,
{
    let clock = Clock::read();
    finish_reconcile_at(state, snapshot, &clock)
}

/// An event that Herdr called the plugin for: its name and its envelope, as
/// far as they are known.
pub struct PluginEvent {
    pub name: Option<String>,
    pub envelope: Option<Json>,
}

/// An event that Herdr called the plugin for.
pub struct EventV {
    pub name: Option<Seq<char>>,
    pub envelope: Option<JsonV>,
}

impl PluginEvent {
    pub open spec fn view(&self) -> EventV {
        EventV {
            name: text::opt_string(self.name),
            envelope: json::opt_json_owned(self.envelope),
        }
    }
}

/// An event with its envelope: the envelope gives the name where no variable
/// does.
pub open spec fn event_of(envelope: JsonV, name: Option<Seq<char>>) -> EventV {
    EventV {
        name: match name {
            Some(given) => Some(given),
            None => envelope.optional_string("event"@),
        },
        envelope: Some(envelope),
    }
}

/// The event that two environment variables give: the envelope as JSON text,
/// and the name.
pub open spec fn event_given(raw: Option<Seq<char>>, name: Option<Seq<char>>) -> Result<
    EventV,
    FaultV,
> {
    let blank = match raw {
        Some(body) => text::trimmed(body).len() == 0,
        None => true,
    };
    if blank {
        Ok(EventV { name, envelope: None })
    } else {
        match outside::parsed_json(raw->0) {
            Err(words) => Err(fault::about(FaultKind::BadEvent, words)),
            Ok(envelope) => Ok(event_of(envelope, name)),
        }
    }
}

fn owned(value: Option<&str>) -> (r: Option<String>)
    ensures
        text::opt_string(r) == text::opt_text(value),
{
    match value {
        Some(text) => Some(text.to_owned()),
        None => None,
    }
}

/// An event with its envelope.
pub fn enveloped(envelope: Json, name: Option<&str>) -> (r: PluginEvent)
    ensures
        r@ == event_of(envelope@, text::opt_text(name)),
{
    let found: Option<String> = match name {
        Some(given) => Some(given.to_owned()),
        None => json::optional_string(&envelope, "event"),
    };
    PluginEvent { name: found, envelope: Some(envelope) }
}

/// The event that `HERDR_PLUGIN_EVENT_JSON` and `HERDR_PLUGIN_EVENT` give.
pub fn plugin_event(raw: Option<&str>, name: Option<&str>) -> (r: Result<PluginEvent, Fault>)
    ensures
        match r {
            Ok(event) => event_given(text::opt_text(raw), text::opt_text(name)) == Ok::<
                EventV,
                FaultV,
            >(event@),
            Err(refusal) => event_given(text::opt_text(raw), text::opt_text(name)) == Err::<
                EventV,
                FaultV,
            >(refusal@),
        },
{
    match raw {
        None => Ok(PluginEvent { name: owned(name), envelope: None }),
        Some(body) => {
            if trim(body).as_str().is_empty() {
                return Ok(PluginEvent { name: owned(name), envelope: None });
            }
            match parse_json(body) {
                Err(words) => Err(Fault::about(FaultKind::BadEvent, words.as_str())),
                Ok(envelope) => Ok(enveloped(envelope, name)),
            }
        },
    }
}

/// The record of an event in the runtime document.
pub open spec fn event_record(event: EventV) -> JsonV {
    JsonV::Object(
        map![
            "name"@ => json::text_or_null(event.name),
            "envelope"@ => match event.envelope {
                Some(envelope) => envelope,
                None => JsonV::Null,
            },
        ],
    )
}

/// A snapshot, or why there is none.
pub open spec fn snapshot_view(snapshot: Result<Json, String>) -> Result<JsonV, Seq<char>> {
    match snapshot {
        Ok(value) => Ok(value@),
        Err(words) => Err(words@),
    }
}

/// What the state takes as observed: the snapshot, or where there is none what
/// it remembers.
pub open spec fn observation(files: Texts, snapshot: Result<JsonV, Seq<char>>) -> JsonV {
    match snapshot {
        Ok(value) => value,
        Err(_) => runtime::remembered(state::runtime_doc(files)),
    }
}

/// The files after an event: the snapshot is observed, or where there is none
/// the connection is noted as lost, with the reason.
pub open spec fn event_observed(
    files: Texts,
    event: EventV,
    snapshot: Result<JsonV, Seq<char>>,
    clock: ClockV,
) -> Texts {
    observed(
        files,
        observation(files, snapshot),
        snapshot is Ok,
        match snapshot {
            Ok(_) => None,
            Err(words) => Some(words),
        },
        "plugin_event"@,
        Some(event_record(event)),
        clock,
    )
}

/// What an event wrote is what is read.
pub open spec fn reads_event(
    files: Texts,
    event: EventV,
    snapshot: Result<JsonV, Seq<char>>,
    clock: ClockV,
    after: Texts,
) -> bool {
    reads_observed(
        files,
        observation(files, snapshot),
        snapshot is Ok,
        match snapshot {
            Ok(_) => None,
            Err(words) => Some(words),
        },
        "plugin_event"@,
        Some(event_record(event)),
        clock,
        after,
    )
}

/// The line that is printed of an event.
pub open spec fn event_line(
    files: Texts,
    event: EventV,
    snapshot: Result<JsonV, Seq<char>>,
) -> Seq<char> {
    "plugin event reconciled: "@ + (match event.name {
        Some(name) => name,
        None => "unknown"@,
    }) + " ("@ + text::digits(runtime::agents_of(observation(files, snapshot)).len())
        + " agents)"@
}

/// Takes an event in, with the snapshot that was taken for it, and gives the
/// line to print.
pub fn finish_event_at(
    state: &mut State,
    event: PluginEvent,
    snapshot: Result<Json, String>,
    clock: &Clock,
) -> (r: String)
    ensures
        final(state).dir == old(state).dir,
        final(state).files@ == event_observed(
            old(state).files@,
            event@,
            snapshot_view(snapshot),
            clock@,
        ),
        reads_event(
            old(state).files@,
            event@,
            snapshot_view(snapshot),
            clock@,
            final(state).files@,
        ),
        r@ == event_line(old(state).files@, event@, snapshot_view(snapshot)),
{
    let name: Option<&str> = match &event.name {
        Some(name) => Some(name.as_str()),
        None => None,
    };
    let mut object = Object::new();
    object.put("name", Json::optional(name));
    object.put(
        "envelope",
        match &event.envelope {
            Some(envelope) => envelope.clone(),
            None => Json::Null,
        },
    );
    let record = Json::Object(object);
    let agents: u64 = match &snapshot {
        Ok(value) => observe_at(state, value, true, None, "plugin_event", Some(&record), clock),
        Err(words) => {
            let known = baseline(&state.runtime());
            observe_at(
                state,
                &known,
                false,
                Some(words.as_str()),
                "plugin_event",
                Some(&record),
                clock,
            )
        },
    };
    let shown: &str = match name {
        Some(name) => name,
        None => "unknown",
    };
    cat5("plugin event reconciled: ", shown, " (", decimal(agents).as_str(), " agents)")
}

/// Takes an event in, with the snapshot that was taken for it, and gives the
/// line to print.
pub fn finish_event(state: &mut State, event: PluginEvent, snapshot: Result<Json, String>) -> (r: String)
    ensures
        final(state).dir == old(state).dir,
        exists|clock: ClockV|
            {
                &&& outside::plain_time(clock.text) is Some
                &&& final(state).files@ == #[trigger] event_observed(
                    old(state).files@,
                    event@,
                    snapshot_view(snapshot),
                    clock,
                )
                &&& reads_event(
                    old(state).files@,
                    event@,
                    snapshot_view(snapshot),
                    clock,
                    final(state).files@,
                )
            },
        r@ == event_line(old(state).files@, event@, snapshot_view(snapshot)),
{
    let clock = Clock::read();
    finish_event_at(state, event, snapshot, &clock)
}

/// What opening the control tower comes to.
pub enum OpenAction {
    /// Close the pane that shows it and has the focus.
    Close(String),
    /// Give the focus to the pane that shows it.
    Focus(String),
    /// Open a pane of the plugin.
    Open(String),
}

/// The model of what opening the control tower comes to.
pub enum OpenV {
    Close(Seq<char>),
    Focus(Seq<char>),
    Open(Seq<char>),
}

impl OpenAction {
    pub open spec fn view(&self) -> OpenV {
        match self {
            OpenAction::Close(id) => OpenV::Close(id@),
            OpenAction::Focus(id) => OpenV::Focus(id@),
            OpenAction::Open(id) => OpenV::Open(id@),
        }
    }
}

/// A pane shows the control tower, by its label, or by its title where it has
/// no label.
pub open spec fn shows_tower(pane: JsonV) -> bool {
    crate::attention::either_text(pane, "label"@, "title"@) == Some("Fleet Control Tower"@)
}

pub open spec fn tower_panes() -> spec_fn(JsonV) -> bool {
    |pane: JsonV| shows_tower(pane)
}

/// The pane that shows the control tower, in a list of panes.
pub open spec fn tower_pane(listing: JsonV) -> Option<JsonV> {
    let panes = member_or_self(listing, "result"@).at("panes"@).items();
    match crate::records::first_where(panes, tower_panes()) {
        Some(i) => Some(panes[i]),
        None => None,
    }
}

/// What opening the control tower comes to, by the pane that shows it: it is
/// closed where it has the focus and gets the focus where it has not, and
/// without such a pane one is opened.
pub open spec fn opening(pane: Option<JsonV>, plugin_id: Option<Seq<char>>) -> OpenV {
    let fresh = OpenV::Open(
        match plugin_id {
            Some(id) => id,
            None => PLUGIN_ID@,
        },
    );
    match pane {
        Some(pane) => match pane.optional_string("pane_id"@) {
            Some(id) => if pane.flag("focused"@, false) {
                OpenV::Close(id)
            } else {
                OpenV::Focus(id)
            },
            None => fresh,
        },
        None => fresh,
    }
}

/// The pane that shows the control tower, as far as Herdr printed a list of
/// panes.
pub open spec fn tower_printed(printed: Option<Seq<char>>) -> Option<JsonV> {
    match printed {
        Some(body) => match outside::parsed_json(body) {
            Ok(listing) => tower_pane(listing),
            Err(_) => None,
        },
        None => None,
    }
}

fn is_tower(pane: &Json) -> (r: bool)
    ensures
        r == shows_tower(pane@),
{
    let shown = match pane.get("label") {
        Some(member) => Some(member),
        None => pane.get("title"),
    };
    match shown {
        Some(member) => match member.as_str() {
            Some(label) => same(label, "Fleet Control Tower"),
            None => false,
        },
        None => false,
    }
}

/// The pane that shows the control tower, in a list of panes.
pub fn find_tower(listing: &Json) -> (r: Option<Json>)
    ensures
        json::opt_json_owned(r) == tower_pane(listing@),
{
    let panes = within(listing, "result").at("panes").into_items();
    let ghost all = json::views(panes@);
    let mut i: usize = 0;
    while i < panes.len()
        invariant
            i <= panes.len(),
            all == member_or_self(listing@, "result"@).at("panes"@).items(),
            all == json::views(panes@),
            forall|k: int| 0 <= k < i ==> !tower_panes()(#[trigger] all[k]),
        decreases panes.len() - i,
    {
        proof {
            assert(all[i as int] == panes@[i as int]@);
        }
        if is_tower(&panes[i]) {
            proof {
                crate::records::lemma_first_where_is(all, tower_panes(), i as int);
            }
            return Some(panes[i].clone());
        }
        i = i + 1;
    }
    proof {
        crate::records::lemma_nowhere(all, tower_panes());
    }
    None
}

/// What opening the control tower comes to, by the pane that shows it.
pub fn pane_action(pane: Option<&Json>, plugin_id: Option<&str>) -> (r: OpenAction)
    ensures
        r@ == opening(json::opt_json(pane), text::opt_text(plugin_id)),
{
    match pane {
        Some(pane) => match json::optional_string(pane, "pane_id") {
            Some(id) => {
                return if pane.flag("focused", false) {
                    OpenAction::Close(id)
                } else {
                    OpenAction::Focus(id)
                };
            },
            None => {},
        },
        None => {},
    }
    OpenAction::Open(
        match plugin_id {
            Some(id) => id.to_owned(),
            None => PLUGIN_ID.to_owned(),
        },
    )
}

/// What opening the control tower comes to; `printed` is the list of panes, as
/// far as Herdr gave one.
pub fn open_action(printed: Option<&str>, plugin_id: Option<&str>) -> (r: OpenAction)
    ensures
        r@ == opening(tower_printed(text::opt_text(printed)), text::opt_text(plugin_id)),
{
    match printed {
        Some(body) => match parse_json(body) {
            Ok(listing) => match find_tower(&listing) {
                Some(pane) => pane_action(Some(&pane), plugin_id),
                None => pane_action(None, plugin_id),
            },
            Err(_) => pane_action(None, plugin_id),
        },
        None => pane_action(None, plugin_id),
    }
}

/// The arguments with which Herdr is called for an action.
pub open spec fn open_words(action: OpenV) -> Seq<Seq<char>> {
    match action {
        OpenV::Close(id) => seq!["pane"@, "close"@, id],
        OpenV::Focus(id) => seq!["plugin"@, "pane"@, "focus"@, id],
        OpenV::Open(id) => seq![
            "plugin"@,
            "pane"@,
            "open"@,
            "--plugin"@,
            id,
            "--entrypoint"@,
            "tower"@,
            "--placement"@,
            "overlay"@,
            "--focus"@,
        ],
    }
}

/// The arguments with which Herdr is called for an action.
pub fn open_args(action: &OpenAction) -> (r: Vec<String>)
    ensures
        text::texts(r@) == open_words(action@),
{
    let mut out: Vec<String> = Vec::new();
    match action {
        OpenAction::Close(id) => {
            out.push("pane".to_owned());
            out.push("close".to_owned());
            out.push(id.as_str().to_owned());
        },
        OpenAction::Focus(id) => {
            out.push("plugin".to_owned());
            out.push("pane".to_owned());
            out.push("focus".to_owned());
            out.push(id.as_str().to_owned());
        },
        OpenAction::Open(id) => {
            out.push("plugin".to_owned());
            out.push("pane".to_owned());
            out.push("open".to_owned());
            out.push("--plugin".to_owned());
            out.push(id.as_str().to_owned());
            out.push("--entrypoint".to_owned());
            out.push("tower".to_owned());
            out.push("--placement".to_owned());
            out.push("overlay".to_owned());
            out.push("--focus".to_owned());
        },
    }
    proof {
        assert(text::texts(out@) =~= open_words(action@));
    }
    out
}

} // verus!
