//! Setting up a state directory, carrying older states over, and rebuilding
//! what is derived: the runtime document and the attention queue.
use vstd::prelude::*;
use crate::depth;
use crate::attention::{compute_attention_at, Clock, ClockV};
use crate::attention;
use crate::dispatch::attention_source_keys;
use crate::dispatch;
use crate::textmap::{TextMap, Texts};
use crate::json::{array_of, Json, JsonV, Members, Object};
use crate::json;
use crate::outside::{now, push_token, utc_ms};
use crate::outside;
use crate::records::any_open;
use crate::records;
use crate::runtime::runtime_at;
use crate::runtime;
use crate::shallow;
use crate::state::{home_dir, join_path, Env, State};
use crate::state;
use crate::text;
use crate::text::{cat3, same};

verus! {

/// The files with a document that is written only where it is missing.
pub open spec fn with_default(files: Texts, name: Seq<char>, value: JsonV) -> Texts {
    if files.contains_key(name) {
        files
    } else {
        state::written(files, name, value)
    }
}

/// The files with a text that is written only where it is missing.
pub open spec fn with_text(files: Texts, name: Seq<char>, body: Seq<char>) -> Texts {
    if files.contains_key(name) {
        files
    } else {
        files.insert(name, body)
    }
}

/// The files with every document of an empty coordinator.
pub open spec fn with_documents(files: Texts) -> Texts {
    let none = JsonV::Array(Seq::empty());
    let first = with_default(files, "fleets.json"@, JsonV::Object(Map::empty()));
    let second = with_default(first, "decisions.json"@, none);
    let third = with_default(second, "claims.json"@, none);
    let fourth = with_default(third, "attention.json"@, none);
    let fifth = with_default(fourth, "controllers.json"@, none);
    with_default(fifth, "deliveries.json"@, none)
}

/// Where deliveries begin: what is in the inbox and in the attention queue
/// already is not delivered.
pub open spec fn delivery_start(files: Texts) -> JsonV {
    JsonV::Object(
        map![
            "inbox_offset"@ => JsonV::Int(state::inbox_of(files).len() as int),
            "attention_active"@ => json::text_array(
                dispatch::source_keys(state::list_of(files, "attention.json"@)),
            ),
        ],
    )
}

/// The files with every document and text of an empty coordinator, but for the
/// cursor of the deliveries.
pub open spec fn furnished(files: Texts) -> Texts {
    with_text(
        with_text(with_documents(files), "inbox.jsonl"@, Seq::empty()),
        "inbox.cursor"@,
        "0"@,
    )
}

/// The files after an initialisation: what was missing is there, and what was
/// there is as it was.
pub open spec fn initialised(files: Texts) -> Texts {
    let base = furnished(files);
    with_default(base, "delivery-state.json"@, delivery_start(base))
}

/// A document that was missing reads as the value that was written for it.
pub open spec fn reads_default(
    before: Texts,
    after: Texts,
    name: Seq<char>,
    value: JsonV,
) -> bool {
    !before.contains_key(name) ==> forall|default: JsonV|
        state::read_as(value, #[trigger] state::document(after, name, default))
}

/// Every document that an initialisation wrote reads as it was written.
pub open spec fn reads_initialised(before: Texts, after: Texts) -> bool {
    let none = JsonV::Array(Seq::empty());
    &&& reads_default(before, after, "fleets.json"@, JsonV::Object(Map::empty()))
    &&& reads_default(before, after, "decisions.json"@, none)
    &&& reads_default(before, after, "claims.json"@, none)
    &&& reads_default(before, after, "attention.json"@, none)
    &&& reads_default(before, after, "controllers.json"@, none)
    &&& reads_default(before, after, "deliveries.json"@, none)
    &&& reads_default(
        before,
        after,
        "delivery-state.json"@,
        delivery_start(furnished(before)),
    )
}

/// What a later directory holds unchanged reads as before.
proof fn lemma_reads_on(
    before: Texts,
    middle: Texts,
    after: Texts,
    name: Seq<char>,
    value: JsonV,
)
    requires
        reads_default(before, middle, name, value),
        middle.contains_key(name),
        after.contains_key(name),
        after[name] == middle[name],
    ensures
        reads_default(before, after, name, value),
{
    assert forall|default: JsonV| !before.contains_key(name) implies state::read_as(
        value,
        #[trigger] state::document(after, name, default),
    ) by {
        assert(state::document(after, name, default) == state::document(middle, name, default));
    }
}

/// An entry of the registry with the members that older states lacked.
pub open spec fn completed_entry(entry: JsonV) -> JsonV {
    match entry {
        JsonV::Object(members) => {
            let filled = state::with_reported(members);
            let named = if filled.contains_key("claim_id"@) {
                filled
            } else {
                filled.insert("claim_id"@, JsonV::Null)
            };
            JsonV::Object(
                if named.contains_key("claim_state"@) {
                    named
                } else {
                    named.insert("claim_state"@, JsonV::Null)
                },
            )
        },
        _ => entry,
    }
}

pub open spec fn completed_registry(registry: Members) -> Members {
    Map::new(
        |project: Seq<char>| registry.contains_key(project),
        |project: Seq<char>| completed_entry(registry[project]),
    )
}

/// The decision that stands for a need of one that only the registry knew of.
pub open spec fn legacy_decision(
    project: Seq<char>,
    entry: JsonV,
    token: Seq<char>,
    now: Seq<char>,
) -> JsonV {
    let question = match entry.optional_string("note"@) {
        Some(note) => note,
        None => "需要用户拍板"@,
    };
    let created = match entry.optional_string("updated_at"@) {
        Some(time) => time,
        None => now,
    };
    JsonV::Object(
        map![
            "id"@ => JsonV::Text(project + "-legacy-"@ + token),
            "project"@ => JsonV::Text(project),
            "state"@ => JsonV::Text("open"@),
            "question"@ => JsonV::Text(question),
            "options"@ => JsonV::Array(Seq::empty()),
            "source"@ => JsonV::Text("legacy_registry_migration"@),
            "created_at"@ => JsonV::Text(created),
            "resolved_at"@ => JsonV::Null,
            "resolution"@ => JsonV::Null,
        ],
    )
}

/// A project needs a decision, and no decision of it is open.
pub open spec fn lacks_decision(
    project: Seq<char>,
    entry: JsonV,
    decisions: Seq<JsonV>,
) -> bool {
    entry is Object && entry.optional_string("status"@) == Some("need_decision"@)
        && !records::has_open(decisions, project)
}

/// The decisions after those were added that the projects lacked.
pub open spec fn with_legacy(
    decisions: Seq<JsonV>,
    projects: Seq<Seq<char>>,
    registry: Members,
    tokens: Seq<Seq<char>>,
    now: Seq<char>,
) -> Seq<JsonV>
    decreases projects.len(),
{
    if projects.len() == 0 {
        decisions
    } else {
        let rest = with_legacy(decisions, projects.drop_last(), registry, tokens, now);
        let project = projects.last();
        if lacks_decision(project, registry[project], rest) {
            rest.push(
                legacy_decision(project, registry[project], tokens[projects.len() - 1], now),
            )
        } else {
            rest
        }
    }
}

/// The decisions of a state after its migration.
pub open spec fn migrated_decisions(
    files: Texts,
    tokens: Seq<Seq<char>>,
    now: Seq<char>,
) -> Seq<JsonV> {
    let registry = state::registry_of(files);
    with_legacy(
        state::decisions_of(files),
        json::name_order(registry),
        registry,
        tokens,
        now,
    )
}

/// The files after a migration: a need of a decision that only the registry
/// knew of has become a decision, and the lists of decisions and claims are
/// there.
pub open spec fn migrated(files: Texts, tokens: Seq<Seq<char>>, now: Seq<char>) -> Texts {
    let registry = state::registry_of(files);
    let decisions = migrated_decisions(files, tokens, now);
    let changed = decisions.len() != state::decisions_of(files).len();
    let first = if changed || !files.contains_key("decisions.json"@) {
        state::written(files, "decisions.json"@, JsonV::Array(decisions))
    } else {
        files
    };
    let second = if !files.contains_key("claims.json"@) {
        state::written(first, "claims.json"@, JsonV::Array(state::claims_of(files)))
    } else {
        first
    };
    if changed {
        state::written(second, "fleets.json"@, JsonV::Object(completed_registry(registry)))
    } else {
        second
    }
}

/// There is nothing left to migrate: whenever it is tried, it changes nothing.
pub open spec fn is_migrated(files: Texts) -> bool {
    forall|tokens: Seq<Seq<char>>, now: Seq<char>| #[trigger]
        migrated(files, tokens, now) == files
}

/// What a migration wrote is what is read.
pub open spec fn reads_migrated(
    before: Texts,
    after: Texts,
    tokens: Seq<Seq<char>>,
    now: Seq<char>,
) -> bool {
    let decisions = migrated_decisions(before, tokens, now);
    let changed = decisions.len() != state::decisions_of(before).len();
    &&& changed || !before.contains_key("decisions.json"@) ==> state::reads_list(
        after,
        "decisions.json"@,
        decisions,
    )
    &&& !before.contains_key("claims.json"@) ==> state::reads_list(
        after,
        "claims.json"@,
        state::claims_of(before),
    )
    &&& changed ==> state::reads_registry(after, completed_registry(state::registry_of(before)))
}

fn complete(entry: &Json) -> (r: Json)
    ensures
        r@ == completed_entry(entry@),
{
    match entry {
        Json::Object(members) => {
            let mut object = members.clone();
            state::fill_reported(&mut object);
            if !object.contains("claim_id") {
                object.put("claim_id", Json::Null);
            }
            if !object.contains("claim_state") {
                object.put("claim_state", Json::Null);
            }
            Json::Object(object)
        },
        _ => entry.clone(),
    }
}

fn complete_all(members: &Object) -> (r: Object)
    ensures
        r@ == completed_registry(members@),
{
    let names = members.names();
    let ghost order = json::name_order(members@);
    let mut out = Object::new();
    let mut n: usize = 0;
    while n < names.len()
        invariant
            n <= names.len(),
            text::texts(names@) == order,
            json::is_name_order(order, members@),
            forall|k: int| 0 <= k < n ==> #[trigger] out@.contains_key(order[k]),
            forall|name: Seq<char>| #[trigger]
                out@.contains_key(name) ==> members@.contains_key(name) && out@[name]
                    == completed_entry(members@[name]),
        decreases names.len() - n,
    {
        proof {
            assert(order[n as int] == names@[n as int]@);
            assert(order.contains(names@[n as int]@));
        }
        match members.get(names[n].as_str()) {
            Some(entry) => {
                out.put(names[n].as_str(), complete(entry));
            },
            None => {},
        }
        n = n + 1;
    }
    proof {
        assert forall|name: Seq<char>| members@.contains_key(name) implies out@.contains_key(
            name,
        ) by {
            assert(order.contains(name));
            let k = choose|k: int| 0 <= k < order.len() && order[k] == name;
            assert(out@.contains_key(order[k]));
        }
        assert(out@ =~= completed_registry(members@));
    }
    out
}

fn make_legacy(project: &str, entry: &Json, token: &str, now: &str) -> (r: Json)
    ensures
        r@ == legacy_decision(project@, entry@, token@, now@),
{
    let question: String = match json::optional_string(entry, "note") {
        Some(note) => note,
        None => "需要用户拍板".to_owned(),
    };
    let created: String = match json::optional_string(entry, "updated_at") {
        Some(time) => time,
        None => now.to_owned(),
    };
    let mut object = Object::new();
    object.put("id", Json::Text(cat3(project, "-legacy-", token)));
    object.put("project", Json::text(project));
    object.put("state", Json::text("open"));
    object.put("question", Json::Text(question));
    object.put("options", Json::empty_array());
    object.put("source", Json::text("legacy_registry_migration"));
    object.put("created_at", Json::Text(created));
    object.put("resolved_at", Json::Null);
    object.put("resolution", Json::Null);
    Json::Object(object)
}

fn decision_lacking(project: &str, entry: &Json, decisions: &[Json]) -> (r: bool)
    ensures
        r == lacks_decision(project@, entry@, json::views(decisions@)),
{
    match entry {
        Json::Object(_) => match json::optional_string(entry, "status") {
            Some(status) => same(status.as_str(), "need_decision") && !any_open(
                decisions,
                project,
            ),
            None => false,
        },
        _ => false,
    }
}

fn add_legacy(
    decisions: &mut Vec<Json>,
    registry: &Object,
    names: &[String],
    tokens: &[String],
    now: &str,
)
    requires
        text::texts(names@) == json::name_order(registry@),
        json::is_name_order(text::texts(names@), registry@),
        tokens@.len() >= names@.len(),
    ensures
        json::views(final(decisions)@) == with_legacy(
            json::views(old(decisions)@),
            json::name_order(registry@),
            registry@,
            text::texts(tokens@),
            now@,
        ),
        final(decisions)@.len() >= old(decisions)@.len(),
{
    let ghost start = json::views(decisions@);
    let ghost order = json::name_order(registry@);
    let ghost words = text::texts(tokens@);
    let mut n: usize = 0;
    proof {
        assert(order.take(0) =~= Seq::empty());
    }
    while n < names.len()
        invariant
            n <= names.len(),
            text::texts(names@) == order,
            json::is_name_order(order, registry@),
            tokens@.len() >= names@.len(),
            words == text::texts(tokens@),
            start.len() == old(decisions)@.len(),
            decisions@.len() >= old(decisions)@.len(),
            json::views(decisions@) == with_legacy(
                start,
                order.take(n as int),
                registry@,
                words,
                now@,
            ),
        decreases names.len() - n,
    {
        proof {
            assert(order[n as int] == names@[n as int]@);
            assert(order.contains(names@[n as int]@));
            assert(order.take(n + 1).drop_last() =~= order.take(n as int));
            assert(order.take(n + 1).last() == names@[n as int]@);
            assert(words[n as int] == tokens@[n as int]@);
        }
        match registry.get(names[n].as_str()) {
            Some(entry) => {
                if decision_lacking(names[n].as_str(), entry, decisions.as_slice()) {
                    let decision = make_legacy(
                        names[n].as_str(),
                        entry,
                        tokens[n].as_str(),
                        now,
                    );
                    proof {
                        json::lemma_views_push(decisions@, decision);
                    }
                    decisions.push(decision);
                }
            },
            None => {},
        }
        n = n + 1;
    }
    proof {
        assert(order.take(n as int) =~= order);
    }
}

/// The files that are carried over from an older state directory.
pub open spec fn carried() -> Seq<Seq<char>> {
    seq![
        "fleets.json"@,
        "claims.json"@,
        "decisions.json"@,
        "attention.json"@,
        "inbox.jsonl"@,
        "inbox.cursor"@,
        "controllers.json"@,
        "deliveries.json"@,
        "delivery-state.json"@,
        "dispatch.json"@,
        "summaries.json"@,
    ]
}

fn carried_names() -> (r: Vec<String>)
    ensures
        text::texts(r@) == carried(),
{
    let mut out: Vec<String> = Vec::new();
    out.push("fleets.json".to_owned());
    out.push("claims.json".to_owned());
    out.push("decisions.json".to_owned());
    out.push("attention.json".to_owned());
    out.push("inbox.jsonl".to_owned());
    out.push("inbox.cursor".to_owned());
    out.push("controllers.json".to_owned());
    out.push("deliveries.json".to_owned());
    out.push("delivery-state.json".to_owned());
    out.push("dispatch.json".to_owned());
    out.push("summaries.json".to_owned());
    proof {
        assert(text::texts(out@) =~= carried());
    }
    out
}

/// The names among the first `count` that the older directory has and the
/// directory had not.
pub open spec fn imports(files: Texts, older: Texts, count: int) -> Seq<Seq<char>>
    decreases count,
{
    if count <= 0 {
        Seq::empty()
    } else {
        let rest = imports(files, older, count - 1);
        let name = carried()[count - 1];
        if older.contains_key(name) && !with_imports(files, older, count - 1).contains_key(name) {
            rest.push(name)
        } else {
            rest
        }
    }
}

/// The files after the first `count` names were carried over.
pub open spec fn with_imports(files: Texts, older: Texts, count: int) -> Texts
    decreases count,
{
    if count <= 0 {
        files
    } else {
        let rest = with_imports(files, older, count - 1);
        let name = carried()[count - 1];
        if older.contains_key(name) && !rest.contains_key(name) {
            rest.insert(name, older[name])
        } else {
            rest
        }
    }
}

/// The record of an import.
pub open spec fn import_record(source: Seq<char>, names: Seq<Seq<char>>, ms: int) -> JsonV {
    JsonV::Object(
        map![
            "source"@ => JsonV::Text(source),
            "imported"@ => json::text_array(names),
            "imported_at_unix_ms"@ => JsonV::Int(ms),
        ],
    )
}

/// An import takes place: Herdr gave the plugin a state directory, there is an
/// older one, and none was imported before.
pub open spec fn imports_now(files: Texts, env: Env, older: Option<Texts>) -> bool {
    env.plugin_state_dir is Some && older is Some && !files.contains_key("legacy-import.json"@)
}

/// The files after an import.
pub open spec fn imported(
    files: Texts,
    env: Env,
    older: Option<Texts>,
    source: Seq<char>,
    ms: int,
) -> Texts {
    if imports_now(files, env, older) {
        let count = carried().len() as int;
        state::written(
            with_imports(files, older->0, count),
            "legacy-import.json"@,
            import_record(source, imports(files, older->0, count), ms),
        )
    } else {
        files
    }
}

/// The record of an import reads as it was written.
pub open spec fn reads_import(
    files: Texts,
    env: Env,
    older: Option<Texts>,
    source: Seq<char>,
    ms: int,
    after: Texts,
) -> bool {
    imports_now(files, env, older) ==> forall|default: JsonV|
        state::read_as(
            import_record(source, imports(files, older->0, carried().len() as int), ms),
            #[trigger] state::document(after, "legacy-import.json"@, default),
        )
}

/// The names that an import carries over.
pub open spec fn imported_names(files: Texts, env: Env, older: Option<Texts>) -> Seq<Seq<char>> {
    if imports_now(files, env, older) {
        imports(files, older->0, carried().len() as int)
    } else {
        Seq::empty()
    }
}

pub open spec fn opt_files(value: Option<&TextMap>) -> Option<Texts> {
    match value {
        Some(files) => Some(files@),
        None => None,
    }
}

/// Where an older state directory lies.
pub open spec fn older_dir(env: Env) -> Seq<char> {
    match env.coordinator_home {
        Some(path) => path@,
        None => state::joined_path(state::home_of(env.home), ".herdr-coordinator"@),
    }
}

/// Where an older state directory lies.
pub fn legacy_dir(env: &Env) -> (r: String)
    ensures
        r@ == older_dir(*env),
{
    match &env.coordinator_home {
        Some(path) => path.as_str().to_owned(),
        None => join_path(home_dir(&env.home).as_str(), ".herdr-coordinator"),
    }
}

/// The attention queue that the documents give at a reading of the clock.
pub open spec fn queue_of(files: Texts, clock: ClockV) -> Seq<JsonV> {
    attention::queue_at(
        state::registry_of(files),
        state::decisions_of(files),
        state::claims_of(files),
        state::runtime_doc(files),
        clock,
    )
}

/// The files after the attention queue was rebuilt.
pub open spec fn refreshed(files: Texts, clock: ClockV) -> Texts {
    state::written(files, "attention.json"@, JsonV::Array(queue_of(files, clock)))
}

/// The runtime document that a snapshot gives.
pub open spec fn runtime_from(
    files: Texts,
    snapshot: JsonV,
    connected: bool,
    error: Option<Seq<char>>,
    source: Seq<char>,
    last_event: Option<JsonV>,
    observed: Seq<char>,
) -> JsonV {
    runtime::runtime_of(
        state::registry_of(files),
        state::runtime_doc(files),
        snapshot,
        connected,
        error,
        source,
        last_event,
        observed,
    )
}

/// A runtime document that was written is what is read, where the snapshot
/// could be read itself, and the event as a member of another value; and
/// whenever the document is not too deep.
pub open spec fn reads_runtime(
    snapshot: JsonV,
    last_event: Option<JsonV>,
    value: JsonV,
    after: Texts,
) -> bool {
    &&& depth::is_shallow(snapshot) && (last_event is Some ==> depth::is_within(
        last_event->0,
        126,
    )) ==> state::read_as(value, state::runtime_doc(after))
    &&& state::kept(value, state::runtime_doc(after))
}

impl State {
    fn default_document(&mut self, name: &str, value: Json)
        requires
            depth::is_shallow(value@),
        ensures
            final(self).files@ == with_default(old(self).files@, name@, value@),
            final(self).dir == old(self).dir,
            reads_default(old(self).files@, final(self).files@, name@, value@),
    {
        if !self.files.has(name) {
            self.write_json(name, &value);
        }
    }

    fn default_text(&mut self, name: &str, body: &str)
        ensures
            final(self).files@ == with_text(old(self).files@, name@, body@),
            final(self).dir == old(self).dir,
    {
        if !self.files.has(name) {
            self.files.put(name, body);
        }
    }

    /// Sets up what is missing in the directory; what is there stays as it is.
    pub fn init(&mut self)
        ensures
            final(self).files@ == initialised(old(self).files@),
            final(self).dir == old(self).dir,
            reads_initialised(old(self).files@, final(self).files@),
    {
        let ghost start = self.files@;
        proof {
            depth::lemma_object(Map::empty(), 126);
            depth::lemma_array(Seq::empty(), 126);
        }
        self.default_document("fleets.json", Json::empty_object());
        let ghost first = self.files@;
        self.default_document("decisions.json", Json::empty_array());
        let ghost second = self.files@;
        self.default_document("claims.json", Json::empty_array());
        let ghost third = self.files@;
        self.default_document("attention.json", Json::empty_array());
        let ghost fourth = self.files@;
        self.default_document("controllers.json", Json::empty_array());
        let ghost fifth = self.files@;
        self.default_document("deliveries.json", Json::empty_array());
        let ghost sixth = self.files@;
        proof {
            reveal_strlit("");
            assert(""@ =~= Seq::<char>::empty());
        }
        self.default_text("inbox.jsonl", "");
        self.default_text("inbox.cursor", "0");
        if !self.files.has("delivery-state.json") {
            let active = self.list("attention.json");
            let keys = attention_source_keys(active.as_slice());
            let mut object = Object::new();
            object.put("inbox_offset", Json::natural(self.inbox_entries().len() as u64));
            object.put("attention_active", array_of(keys.as_slice()));
            proof {
                shallow::lemma_delivery_start(self.files@);
            }
            self.write_json("delivery-state.json", &Json::Object(object));
        }
        proof {
            lemma_initial_names();
            let end = self.files@;
            let none = JsonV::Array(Seq::empty());
            lemma_reads_on(start, first, end, "fleets.json"@, JsonV::Object(Map::empty()));
            lemma_reads_on(start, second, end, "decisions.json"@, none);
            lemma_reads_on(start, third, end, "claims.json"@, none);
            lemma_reads_on(start, fourth, end, "attention.json"@, none);
            lemma_reads_on(start, fifth, end, "controllers.json"@, none);
            lemma_reads_on(start, sixth, end, "deliveries.json"@, none);
        }
    }

    /// Turns a need of a decision that only the registry knows of into a
    /// decision; `tokens` holds a random part of an identifier for every
    /// project.
    pub fn migrate_legacy_at(&mut self, tokens: &[String], now: &str)
        requires
            tokens@.len() >= json::name_order(state::registry_of(old(self).files@)).len(),
        ensures
            final(self).files@ == migrated(old(self).files@, text::texts(tokens@), now@),
            final(self).dir == old(self).dir,
            reads_migrated(old(self).files@, final(self).files@, text::texts(tokens@), now@),
            is_migrated(final(self).files@),
    {
        let registry = self.registry();
        let names = registry.names();
        let mut decisions = self.decisions();
        let claims = self.claims();
        let before: usize = decisions.len();
        proof {
            assert(text::texts(names@).len() == names@.len());
            assert(json::views(decisions@).len() == decisions@.len());
        }
        add_legacy(&mut decisions, &registry, names.as_slice(), tokens, now);
        proof {
            assert(json::views(decisions@).len() == decisions@.len());
        }
        let changed = decisions.len() != before;
        let had_decisions = self.files.has("decisions.json");
        let had_claims = self.files.has("claims.json");
        let ghost start = self.files@;
        let ghost migrated_list = json::views(decisions@);
        let ghost claimed = json::views(claims@);
        proof {
            lemma_initial_names();
            let order = json::name_order(registry@);
            shallow::lemma_legacy(
                state::decisions_of(start),
                order,
                registry@,
                text::texts(tokens@),
                now@,
            );
            shallow::lemma_completed(registry@);
        }
        if changed || !had_decisions {
            self.write_json("decisions.json", &Json::Array(decisions));
        }
        let ghost first = self.files@;
        if !had_claims {
            self.write_json("claims.json", &Json::Array(claims));
        }
        let ghost second = self.files@;
        if changed {
            let completed = complete_all(&registry);
            self.write_json("fleets.json", &Json::Object(completed));
        }
        proof {
            let none = JsonV::Array(Seq::empty());
            let empty = JsonV::Object(Map::empty());
            assert(state::document(first, "decisions.json"@, none) == state::document(
                self.files@,
                "decisions.json"@,
                none,
            ));
            assert(state::document(second, "claims.json"@, none) == state::document(
                self.files@,
                "claims.json"@,
                none,
            ));
            if changed || !had_decisions {
                state::lemma_kept_list(self.files@, "decisions.json"@, migrated_list);
            }
            if !had_claims {
                state::lemma_kept_list(self.files@, "claims.json"@, claimed);
            }
            if changed {
                assert(state::kept(
                    JsonV::Object(completed_registry(registry@)),
                    state::document(self.files@, "fleets.json"@, empty),
                ));
                state::lemma_kept_registry(self.files@, completed_registry(registry@));
            }
            let words = text::texts(tokens@);
            assert(registry@.dom().finite()) by {
                let order = json::name_order(registry@);
                vstd::seq_lib::seq_to_set_is_finite(order);
                assert forall|name: Seq<char>| registry@.dom().contains(name) implies order.to_set(
                ).contains(name) by {
                    assert(order.contains(name));
                }
                assert(registry@.dom() =~= order.to_set().intersect(registry@.dom()));
            }
            assert forall|later_tokens: Seq<Seq<char>>, later: Seq<char>| #[trigger]
                migrated(self.files@, later_tokens, later) == self.files@ by {
                law_second_migration_adds_nothing(start, words, now@, later_tokens, later);
            }
        }
    }

    /// Turns a need of a decision that only the registry knows of into a
    /// decision.
    pub fn migrate_legacy(&mut self)
        ensures
            exists|tokens: Seq<Seq<char>>, now: Seq<char>|
                {
                    &&& outside::are_tokens(tokens, 8)
                    &&& tokens.len() == json::name_order(
                        state::registry_of(old(self).files@),
                    ).len()
                    &&& outside::plain_time(now) is Some
                    &&& final(self).files@ == #[trigger] migrated(old(self).files@, tokens, now)
                    &&& reads_migrated(old(self).files@, final(self).files@, tokens, now)
                },
            final(self).dir == old(self).dir,
            is_migrated(final(self).files@),
    {
        let names = self.registry().names();
        let mut tokens: Vec<String> = Vec::new();
        let mut i: usize = 0;
        while i < names.len()
            invariant
                i <= names.len(),
                tokens@.len() == i,
                outside::are_tokens(text::texts(tokens@), 8),
            decreases names.len() - i,
        {
            push_token(&mut tokens, 8);
            i = i + 1;
        }
        proof {
            assert(text::texts(names@).len() == names@.len());
        }
        let time = now();
        self.migrate_legacy_at(tokens.as_slice(), time.as_str());
    }

    /// Carries the files of an older state directory over, once; `older` holds
    /// them where there is such a directory and it is not this one. Gives the
    /// names that were carried over.
    pub fn import_legacy_once_at(
        &mut self,
        env: &Env,
        older: Option<&TextMap>,
        source: &str,
        ms: i64,
    ) -> (r: Vec<String>)
        ensures
            final(self).files@ == imported(
                old(self).files@,
                *env,
                opt_files(older),
                source@,
                ms as int,
            ),
            text::texts(r@) == imported_names(old(self).files@, *env, opt_files(older)),
            final(self).dir == old(self).dir,
            reads_import(
                old(self).files@,
                *env,
                opt_files(older),
                source@,
                ms as int,
                final(self).files@,
            ),
    {
        let mut out: Vec<String> = Vec::new();
        proof {
            assert(text::texts(out@) =~= Seq::empty());
        }
        if env.plugin_state_dir.is_none() || self.files.has("legacy-import.json") {
            return out;
        }
        match older {
            Some(older) => {
                let ghost start = self.files@;
                let names = carried_names();
                proof {
                    assert(text::texts(names@).len() == names@.len());
                }
                let mut i: usize = 0;
                while i < names.len()
                    invariant
                        i <= names.len(),
                        text::texts(names@) == carried(),
                        self.files@ == with_imports(start, older@, i as int),
                        text::texts(out@) == imports(start, older@, i as int),
                        self.dir == old(self).dir,
                    decreases names.len() - i,
                {
                    proof {
                        assert(carried()[i as int] == names@[i as int]@);
                    }
                    let name = names[i].as_str();
                    match older.get(name) {
                        Some(body) => {
                            if !self.files.has(name) {
                                let ghost pre = out@;
                                let copied = name.to_owned();
                                self.files.put(name, body);
                                out.push(copied);
                                proof {
                                    assert(text::texts(out@) =~= text::texts(pre).push(copied@));
                                }
                            }
                        },
                        None => {},
                    }
                    i = i + 1;
                }
                proof {
                    assert(carried().len() == i);
                }
                let mut record = Object::new();
                record.put("source", Json::text(source));
                record.put("imported", array_of(out.as_slice()));
                record.put("imported_at_unix_ms", Json::integer(ms));
                proof {
                    shallow::lemma_import_record(source@, text::texts(out@), ms as int);
                }
                self.write_json("legacy-import.json", &Json::Object(record));
                out
            },
            None => out,
        }
    }

    /// Carries the files of an older state directory over, once.
    pub fn import_legacy_once(&mut self, env: &Env, older: Option<&TextMap>, source: &str) -> (r: Vec<
        String,
    >)
        ensures
            exists|ms: int|
                {
                    &&& outside::is_chrono_ms(ms)
                    &&& final(self).files@ == #[trigger] imported(
                        old(self).files@,
                        *env,
                        opt_files(older),
                        source@,
                        ms,
                    )
                    &&& reads_import(
                        old(self).files@,
                        *env,
                        opt_files(older),
                        source@,
                        ms,
                        final(self).files@,
                    )
                },
            text::texts(r@) == imported_names(old(self).files@, *env, opt_files(older)),
            final(self).dir == old(self).dir,
    {
        let ms: i64 = utc_ms();
        self.import_legacy_once_at(env, older, source, ms)
    }

    /// Writes the runtime document that a snapshot gives at a time.
    pub fn write_runtime_at(
        &mut self,
        snapshot: &Json,
        connected: bool,
        error: Option<&str>,
        source: &str,
        last_event: Option<&Json>,
        observed: &str,
    ) -> (r: Json)
        ensures
            r@ == runtime_from(
                old(self).files@,
                snapshot@,
                connected,
                text::opt_text(error),
                source@,
                json::opt_json(last_event),
                observed@,
            ),
            final(self).files@ == state::written(old(self).files@, "runtime.json"@, r@),
            final(self).dir == old(self).dir,
            reads_runtime(snapshot@, json::opt_json(last_event), r@, final(self).files@),
    {
        let registry = self.registry();
        let previous = self.runtime();
        let value = runtime_at(
            &registry,
            &previous,
            snapshot,
            connected,
            error,
            source,
            last_event,
            observed,
        );
        self.write_json("runtime.json", &value);
        proof {
            let event = json::opt_json(last_event);
            if depth::is_shallow(snapshot@) && (event is Some ==> depth::is_within(
                event->0,
                126,
            )) {
                shallow::lemma_runtime(
                    registry@,
                    previous@,
                    snapshot@,
                    connected,
                    text::opt_text(error),
                    source@,
                    event,
                    observed@,
                );
            }
        }
        value
    }

    /// Writes the runtime document that a snapshot gives now.
    pub fn write_runtime(
        &mut self,
        snapshot: &Json,
        connected: bool,
        error: Option<&str>,
        source: &str,
        last_event: Option<&Json>,
    ) -> (r: Json)
        ensures
            exists|observed: Seq<char>|
                outside::plain_time(observed) is Some && r@ == #[trigger] runtime_from(
                    old(self).files@,
                    snapshot@,
                    connected,
                    text::opt_text(error),
                    source@,
                    json::opt_json(last_event),
                    observed,
                ),
            final(self).files@ == state::written(old(self).files@, "runtime.json"@, r@),
            final(self).dir == old(self).dir,
            reads_runtime(snapshot@, json::opt_json(last_event), r@, final(self).files@),
    {
        let observed = now();
        self.write_runtime_at(snapshot, connected, error, source, last_event, observed.as_str())
    }

    /// Rebuilds the attention queue at a reading of the clock.
    pub fn refresh_attention_at(&mut self, clock: &Clock) -> (r: Vec<Json>)
        ensures
            json::views(r@) == queue_of(old(self).files@, clock@),
            final(self).files@ == refreshed(old(self).files@, clock@),
            final(self).dir == old(self).dir,
            state::reads_list(final(self).files@, "attention.json"@, json::views(r@)),
    {
        let values = compute_attention_at(
            &self.registry(),
            self.decisions().as_slice(),
            self.claims().as_slice(),
            &self.runtime(),
            clock,
        );
        let copy = json::clone_items(&values);
        self.write_json("attention.json", &Json::Array(copy));
        proof {
            let before = old(self).files@;
            shallow::lemma_queue(
                state::registry_of(before),
                state::decisions_of(before),
                state::claims_of(before),
                state::runtime_doc(before),
                clock@,
            );
            state::lemma_kept_list(self.files@, "attention.json"@, json::views(values@));
        }
        values
    }

    /// Rebuilds the attention queue.
    pub fn refresh_attention(&mut self) -> (r: Vec<Json>)
        ensures
            exists|clock: ClockV|
                outside::plain_time(clock.text) is Some && json::views(r@) == #[trigger] queue_of(
                    old(self).files@,
                    clock,
                ),
            final(self).files@ == state::written(
                old(self).files@,
                "attention.json"@,
                JsonV::Array(json::views(r@)),
            ),
            final(self).dir == old(self).dir,
            state::reads_list(final(self).files@, "attention.json"@, json::views(r@)),
    {
        let clock = Clock::read();
        self.refresh_attention_at(&clock)
    }
}

/// The names of the documents that are set up differ.
proof fn lemma_initial_names()
    ensures
        "fleets.json"@ != "decisions.json"@,
        "fleets.json"@ != "claims.json"@,
        "fleets.json"@ != "attention.json"@,
        "fleets.json"@ != "controllers.json"@,
        "fleets.json"@ != "deliveries.json"@,
        "fleets.json"@ != "inbox.jsonl"@,
        "fleets.json"@ != "inbox.cursor"@,
        "fleets.json"@ != "delivery-state.json"@,
        "decisions.json"@ != "claims.json"@,
        "decisions.json"@ != "attention.json"@,
        "decisions.json"@ != "controllers.json"@,
        "decisions.json"@ != "deliveries.json"@,
        "decisions.json"@ != "inbox.jsonl"@,
        "decisions.json"@ != "inbox.cursor"@,
        "decisions.json"@ != "delivery-state.json"@,
        "claims.json"@ != "attention.json"@,
        "claims.json"@ != "controllers.json"@,
        "claims.json"@ != "deliveries.json"@,
        "claims.json"@ != "inbox.jsonl"@,
        "claims.json"@ != "inbox.cursor"@,
        "claims.json"@ != "delivery-state.json"@,
        "attention.json"@ != "controllers.json"@,
        "attention.json"@ != "deliveries.json"@,
        "attention.json"@ != "inbox.jsonl"@,
        "attention.json"@ != "inbox.cursor"@,
        "attention.json"@ != "delivery-state.json"@,
        "controllers.json"@ != "deliveries.json"@,
        "controllers.json"@ != "inbox.jsonl"@,
        "controllers.json"@ != "inbox.cursor"@,
        "controllers.json"@ != "delivery-state.json"@,
        "deliveries.json"@ != "inbox.jsonl"@,
        "deliveries.json"@ != "inbox.cursor"@,
        "deliveries.json"@ != "delivery-state.json"@,
        "inbox.jsonl"@ != "inbox.cursor"@,
        "inbox.jsonl"@ != "delivery-state.json"@,
        "inbox.cursor"@ != "delivery-state.json"@,
{
    reveal_strlit("fleets.json");
    reveal_strlit("decisions.json");
    reveal_strlit("claims.json");
    reveal_strlit("attention.json");
    reveal_strlit("controllers.json");
    reveal_strlit("deliveries.json");
    reveal_strlit("inbox.jsonl");
    reveal_strlit("inbox.cursor");
    reveal_strlit("delivery-state.json");
    assert("fleets.json"@.len() == 11 && "fleets.json"@[0] == 'f');
    assert("decisions.json"@.len() == 14 && "decisions.json"@[0] == 'd');
    assert("claims.json"@.len() == 11 && "claims.json"@[0] == 'c');
    assert("attention.json"@.len() == 14 && "attention.json"@[0] == 'a');
    assert("controllers.json"@.len() == 16 && "controllers.json"@[0] == 'c');
    assert("deliveries.json"@.len() == 15 && "deliveries.json"@[0] == 'd');
    assert("inbox.jsonl"@.len() == 11 && "inbox.jsonl"@[0] == 'i');
    assert("inbox.cursor"@.len() == 12 && "inbox.cursor"@[0] == 'i');
    assert("delivery-state.json"@.len() == 19 && "delivery-state.json"@[0] == 'd');
}

/// The names of the documents differ.
proof fn lemma_document_names()
    ensures
        "runtime.json"@ != "fleets.json"@,
        "runtime.json"@ != "decisions.json"@,
        "runtime.json"@ != "claims.json"@,
        "runtime.json"@ != "attention.json"@,
        "attention.json"@ != "fleets.json"@,
        "attention.json"@ != "decisions.json"@,
        "attention.json"@ != "claims.json"@,
        "legacy-import.json"@ != "runtime.json"@,
        !carried().contains("runtime.json"@),
        !carried().contains("legacy-import.json"@),
{
    reveal_strlit("fleets.json");
    reveal_strlit("decisions.json");
    reveal_strlit("claims.json");
    reveal_strlit("attention.json");
    reveal_strlit("inbox.jsonl");
    reveal_strlit("inbox.cursor");
    reveal_strlit("controllers.json");
    reveal_strlit("deliveries.json");
    reveal_strlit("delivery-state.json");
    reveal_strlit("dispatch.json");
    reveal_strlit("summaries.json");
    reveal_strlit("runtime.json");
    reveal_strlit("legacy-import.json");
    assert("runtime.json"@[0] == 'r' && "legacy-import.json"@[0] == 'l');
    assert("fleets.json"@[0] == 'f' && "decisions.json"@[0] == 'd' && "claims.json"@[0] == 'c');
    assert("attention.json"@[0] == 'a' && "inbox.jsonl"@[0] == 'i' && "inbox.cursor"@[0] == 'i');
    assert("controllers.json"@[0] == 'c' && "deliveries.json"@[0] == 'd');
    assert("delivery-state.json"@[0] == 'd' && "dispatch.json"@[0] == 'd');
    assert("summaries.json"@[0] == 's');
    assert forall|i: int| 0 <= i < carried().len() implies #[trigger] carried()[i]
        != "runtime.json"@ && carried()[i] != "legacy-import.json"@ by {
        if i == 0 {
        } else if i == 1 {
        } else if i == 2 {
        } else if i == 3 {
        } else if i == 4 {
        } else if i == 5 {
        } else if i == 6 {
        } else if i == 7 {
        } else if i == 8 {
        } else if i == 9 {
        } else {
            assert(i == 10);
        }
    }
}

/// What the runtime says never changes what the projects have reported: with
/// any runtime document, registry, decisions and claims read as before.
pub proof fn law_runtime_leaves_business_state(files: Texts, value: JsonV)
    ensures
        state::registry_of(state::written(files, "runtime.json"@, value)) == state::registry_of(
            files,
        ),
        state::decisions_of(state::written(files, "runtime.json"@, value)) == state::decisions_of(
            files,
        ),
        state::claims_of(state::written(files, "runtime.json"@, value)) == state::claims_of(files),
{
    lemma_document_names();
}

/// The attention queue is a projection: writing it changes nothing that it is
/// made of, so that it is the same when it is rebuilt at once.
pub proof fn law_refresh_changes_no_source(files: Texts, clock: ClockV)
    ensures
        state::registry_of(refreshed(files, clock)) == state::registry_of(files),
        state::decisions_of(refreshed(files, clock)) == state::decisions_of(files),
        state::claims_of(refreshed(files, clock)) == state::claims_of(files),
        state::runtime_doc(refreshed(files, clock)) == state::runtime_doc(files),
        refreshed(refreshed(files, clock), clock) == refreshed(files, clock),
{
    lemma_document_names();
    let once = refreshed(files, clock);
    assert(queue_of(once, clock) == queue_of(files, clock));
    assert(refreshed(once, clock) =~= once);
}

/// An initialisation leaves every file that is there as it is.
pub proof fn law_init_keeps_what_is_there(files: Texts, name: Seq<char>)
    requires
        files.contains_key(name),
    ensures
        initialised(files).contains_key(name),
        initialised(files)[name] == files[name],
{
}

/// An initialisation provides every document.
pub proof fn law_init_provides(files: Texts)
    ensures
        initialised(files).contains_key("fleets.json"@),
        initialised(files).contains_key("decisions.json"@),
        initialised(files).contains_key("claims.json"@),
        initialised(files).contains_key("attention.json"@),
        initialised(files).contains_key("controllers.json"@),
        initialised(files).contains_key("deliveries.json"@),
        initialised(files).contains_key("inbox.jsonl"@),
        initialised(files).contains_key("inbox.cursor"@),
        initialised(files).contains_key("delivery-state.json"@),
{
}

/// A second initialisation changes nothing.
pub proof fn law_init_is_idempotent(files: Texts)
    ensures
        initialised(initialised(files)) == initialised(files),
{
    law_init_provides(files);
}

proof fn lemma_imports_frame(files: Texts, older: Texts, count: int, name: Seq<char>)
    requires
        0 <= count <= carried().len(),
    ensures
        files.contains_key(name) ==> with_imports(files, older, count).contains_key(name)
            && with_imports(files, older, count)[name] == files[name],
        !carried().contains(name) ==> with_imports(files, older, count).contains_key(name)
            == files.contains_key(name),
        with_imports(files, older, count).contains_key(name) && !files.contains_key(name)
            ==> older.contains_key(name) && with_imports(files, older, count)[name]
            == older[name],
    decreases count,
{
    if count > 0 {
        lemma_imports_frame(files, older, count - 1, name);
        assert(carried().contains(carried()[count - 1]));
    }
}

/// An import overwrites no file, and brings in nothing but the listed files,
/// as they were, and its record: never the runtime document.
pub proof fn law_import_only_fills_gaps(
    files: Texts,
    env: Env,
    older: Option<Texts>,
    source: Seq<char>,
    ms: int,
    name: Seq<char>,
)
    requires
        name != "legacy-import.json"@,
    ensures
        ({
            let after = imported(files, env, older, source, ms);
            &&& files.contains_key(name) ==> after.contains_key(name) && after[name] == files[name]
            &&& after.contains_key(name) && !files.contains_key(name) ==> carried().contains(name)
                && older is Some && older->0.contains_key(name) && after[name] == older->0[name]
            &&& name == "runtime.json"@ ==> after.contains_key(name) == files.contains_key(name)
        }),
{
    lemma_document_names();
    if imports_now(files, env, older) {
        lemma_imports_frame(files, older->0, carried().len() as int, name);
    }
}

/// An import takes place once: whatever is found later, nothing changes.
pub proof fn law_import_happens_once(
    files: Texts,
    env: Env,
    older: Option<Texts>,
    source: Seq<char>,
    ms: int,
    later: Option<Texts>,
    later_source: Seq<char>,
    later_ms: int,
)
    requires
        imports_now(files, env, older),
    ensures
        ({
            let after = imported(files, env, older, source, ms);
            &&& imported(after, env, later, later_source, later_ms) == after
            &&& imported_names(after, env, later).len() == 0
        }),
{
}

proof fn lemma_legacy_is_open(
    project: Seq<char>,
    entry: JsonV,
    token: Seq<char>,
    now: Seq<char>,
)
    ensures
        records::is_open(legacy_decision(project, entry, token, now), Some(project)),
{
    reveal_strlit("id");
    reveal_strlit("project");
    reveal_strlit("state");
    reveal_strlit("question");
    reveal_strlit("options");
    reveal_strlit("source");
    reveal_strlit("created_at");
    reveal_strlit("resolved_at");
    reveal_strlit("resolution");
    assert("state"@.len() == 5 && "project"@.len() == 7 && "options"@.len() == 7);
    assert("project"@[0] == 'p' && "options"@[0] == 'o');
}

proof fn lemma_none_lacks(
    decisions: Seq<JsonV>,
    projects: Seq<Seq<char>>,
    registry: Members,
    tokens: Seq<Seq<char>>,
    now: Seq<char>,
    i: int,
)
    requires
        0 <= i < projects.len(),
    ensures
        !lacks_decision(
            projects[i],
            registry[projects[i]],
            with_legacy(decisions, projects, registry, tokens, now),
        ),
    decreases projects.len(),
{
    let rest = with_legacy(decisions, projects.drop_last(), registry, tokens, now);
    let all = with_legacy(decisions, projects, registry, tokens, now);
    let last = projects.last();
    if i == projects.len() - 1 {
        if lacks_decision(last, registry[last], rest) {
            let made = legacy_decision(last, registry[last], tokens[projects.len() - 1], now);
            lemma_legacy_is_open(last, registry[last], tokens[projects.len() - 1], now);
            assert(all[rest.len() as int] == made);
        }
    } else {
        lemma_none_lacks(decisions, projects.drop_last(), registry, tokens, now, i);
        assert(projects.drop_last()[i] == projects[i]);
        if records::has_open(rest, projects[i]) {
            let k = choose|k: int|
                0 <= k < rest.len() && records::is_open(#[trigger] rest[k], Some(projects[i]));
            assert(all[k] == rest[k]);
        }
    }
}

proof fn lemma_nothing_to_add(
    decisions: Seq<JsonV>,
    projects: Seq<Seq<char>>,
    registry: Members,
    tokens: Seq<Seq<char>>,
    now: Seq<char>,
)
    requires
        forall|i: int|
            0 <= i < projects.len() ==> !lacks_decision(
                #[trigger] projects[i],
                registry[projects[i]],
                decisions,
            ),
    ensures
        with_legacy(decisions, projects, registry, tokens, now) == decisions,
    decreases projects.len(),
{
    if projects.len() > 0 {
        assert forall|i: int| 0 <= i < projects.drop_last().len() implies !lacks_decision(
            #[trigger] projects.drop_last()[i],
            registry[projects.drop_last()[i]],
            decisions,
        ) by {
            assert(projects.drop_last()[i] == projects[i]);
        }
        lemma_nothing_to_add(decisions, projects.drop_last(), registry, tokens, now);
        assert(!lacks_decision(projects[projects.len() - 1], registry[projects.last()], decisions));
    }
}

/// A migration is done once: every need of a decision has an open decision
/// afterwards, so that a second migration adds none.
pub proof fn law_migration_is_done_once(
    decisions: Seq<JsonV>,
    projects: Seq<Seq<char>>,
    registry: Members,
    tokens: Seq<Seq<char>>,
    now: Seq<char>,
    later_tokens: Seq<Seq<char>>,
    later: Seq<char>,
)
    ensures
        ({
            let once = with_legacy(decisions, projects, registry, tokens, now);
            with_legacy(once, projects, registry, later_tokens, later) == once
        }),
{
    let once = with_legacy(decisions, projects, registry, tokens, now);
    assert forall|i: int| 0 <= i < projects.len() implies !lacks_decision(
        #[trigger] projects[i],
        registry[projects[i]],
        once,
    ) by {
        lemma_none_lacks(decisions, projects, registry, tokens, now, i);
    }
    lemma_nothing_to_add(once, projects, registry, later_tokens, later);
}

/// A migration keeps every decision that was there, in its place.
pub proof fn law_migration_keeps_decisions(
    decisions: Seq<JsonV>,
    projects: Seq<Seq<char>>,
    registry: Members,
    tokens: Seq<Seq<char>>,
    now: Seq<char>,
)
    ensures
        decisions.is_prefix_of(with_legacy(decisions, projects, registry, tokens, now)),
    decreases projects.len(),
{
    if projects.len() > 0 {
        law_migration_keeps_decisions(decisions, projects.drop_last(), registry, tokens, now);
    }
}

/// A migration writes no file but the registry, the decisions and the claims.
pub proof fn law_migration_leaves_other_files(
    files: Texts,
    tokens: Seq<Seq<char>>,
    now: Seq<char>,
    name: Seq<char>,
)
    requires
        name != "fleets.json"@,
        name != "decisions.json"@,
        name != "claims.json"@,
    ensures
        migrated(files, tokens, now).contains_key(name) == files.contains_key(name),
        files.contains_key(name) ==> migrated(files, tokens, now)[name] == files[name],
{
}

/// A migration changes neither the status nor the note of an entry, however it
/// is read afterwards.
pub proof fn law_migration_keeps_entries(entry: JsonV)
    ensures
        completed_entry(entry).get("status"@) == entry.get("status"@),
        completed_entry(entry).get("note"@) == entry.get("note"@),
        state::normal_entry(completed_entry(entry)).get("status"@) == entry.get("status"@),
        state::normal_entry(completed_entry(entry)).get("note"@) == entry.get("note"@),
{
    lemma_entry_names();
}

proof fn lemma_entry_names()
    ensures
        "status"@ != "reported_status"@,
        "status"@ != "claim_id"@,
        "status"@ != "claim_state"@,
        "note"@ != "reported_status"@,
        "note"@ != "claim_id"@,
        "note"@ != "claim_state"@,
{
    reveal_strlit("status");
    reveal_strlit("note");
    reveal_strlit("reported_status");
    reveal_strlit("claim_id");
    reveal_strlit("claim_state");
    assert("status"@.len() == 6 && "note"@.len() == 4 && "reported_status"@.len() == 15);
    assert("claim_id"@.len() == 8 && "claim_state"@.len() == 11);
}

/// Every decision that a migration adds is that of a project that needed one
/// and had none open, and no two are of the same project.
pub open spec fn adds_needed(
    decisions: Seq<JsonV>,
    after: Seq<JsonV>,
    projects: Seq<Seq<char>>,
    registry: Members,
    tokens: Seq<Seq<char>>,
    now: Seq<char>,
) -> bool {
    &&& decisions.is_prefix_of(after)
    &&& forall|k: int|
        decisions.len() <= k < after.len() ==> exists|n: int|
            0 <= n < projects.len() && lacks_decision(
                projects[n],
                registry[projects[n]],
                decisions,
            ) && #[trigger] after[k] == legacy_decision(
                #[trigger] projects[n],
                registry[projects[n]],
                tokens[n],
                now,
            )
    &&& forall|j: int, k: int|
        decisions.len() <= j < k < after.len() ==> (#[trigger] after[j]).string("project"@) != (
        #[trigger] after[k]).string("project"@)
}

/// A migration adds exactly one decision for every project that needs one and
/// has none open, and none for any other.
pub proof fn law_migration_adds_what_is_needed(
    decisions: Seq<JsonV>,
    projects: Seq<Seq<char>>,
    registry: Members,
    tokens: Seq<Seq<char>>,
    now: Seq<char>,
)
    requires
        forall|i: int, j: int| 0 <= i < j < projects.len() ==> projects[i] != projects[j],
    ensures
        adds_needed(
            decisions,
            with_legacy(decisions, projects, registry, tokens, now),
            projects,
            registry,
            tokens,
            now,
        ),
        forall|i: int|
            0 <= i < projects.len() ==> !lacks_decision(
                #[trigger] projects[i],
                registry[projects[i]],
                with_legacy(decisions, projects, registry, tokens, now),
            ),
    decreases projects.len(),
{
    let after = with_legacy(decisions, projects, registry, tokens, now);
    assert forall|i: int| 0 <= i < projects.len() implies !lacks_decision(
        #[trigger] projects[i],
        registry[projects[i]],
        after,
    ) by {
        lemma_none_lacks(decisions, projects, registry, tokens, now, i);
    }
    if projects.len() > 0 {
        let fewer = projects.drop_last();
        let last = projects.last();
        let n = projects.len() - 1;
        law_migration_adds_what_is_needed(decisions, fewer, registry, tokens, now);
        let rest = with_legacy(decisions, fewer, registry, tokens, now);
        if lacks_decision(last, registry[last], rest) {
            let made = legacy_decision(last, registry[last], tokens[n], now);
            lemma_legacy_is_open(last, registry[last], tokens[n], now);
            if records::has_open(decisions, last) {
                let k = choose|k: int|
                    0 <= k < decisions.len() && records::is_open(
                        #[trigger] decisions[k],
                        Some(last),
                    );
                assert(rest[k] == decisions[k]);
                assert(false);
            }
            assert forall|k: int| decisions.len() <= k < after.len() implies exists|m: int|
                0 <= m < projects.len() && lacks_decision(
                    projects[m],
                    registry[projects[m]],
                    decisions,
                ) && #[trigger] after[k] == legacy_decision(
                    #[trigger] projects[m],
                    registry[projects[m]],
                    tokens[m],
                    now,
                ) by {
                if k == rest.len() {
                    assert(projects[n] == last);
                    assert(after[k] == made);
                } else {
                    assert(after[k] == rest[k]);
                    let m = choose|m: int|
                        0 <= m < fewer.len() && lacks_decision(
                            fewer[m],
                            registry[fewer[m]],
                            decisions,
                        ) && rest[k] == legacy_decision(
                            #[trigger] fewer[m],
                            registry[fewer[m]],
                            tokens[m],
                            now,
                        );
                    assert(projects[m] == fewer[m]);
                }
            }
            assert forall|j: int, k: int| decisions.len() <= j < k < after.len() implies (
            #[trigger] after[j]).string("project"@) != (#[trigger] after[k]).string("project"@) by {
                assert(after[j] == rest[j]);
                if k < rest.len() {
                    assert(after[k] == rest[k]);
                } else {
                    let m = choose|m: int|
                        0 <= m < fewer.len() && lacks_decision(
                            fewer[m],
                            registry[fewer[m]],
                            decisions,
                        ) && rest[j] == legacy_decision(
                            #[trigger] fewer[m],
                            registry[fewer[m]],
                            tokens[m],
                            now,
                        );
                    lemma_legacy_is_open(fewer[m], registry[fewer[m]], tokens[m], now);
                    assert(projects[m] == fewer[m]);
                    assert(projects[m] != projects[n]);
                }
            }
        } else {
            assert forall|k: int| decisions.len() <= k < after.len() implies exists|m: int|
                0 <= m < projects.len() && lacks_decision(
                    projects[m],
                    registry[projects[m]],
                    decisions,
                ) && #[trigger] after[k] == legacy_decision(
                    #[trigger] projects[m],
                    registry[projects[m]],
                    tokens[m],
                    now,
                ) by {
                let m = choose|m: int|
                    0 <= m < fewer.len() && lacks_decision(
                        fewer[m],
                        registry[fewer[m]],
                        decisions,
                    ) && rest[k] == legacy_decision(
                        #[trigger] fewer[m],
                        registry[fewer[m]],
                        tokens[m],
                        now,
                    );
                assert(projects[m] == fewer[m]);
            }
        }
    }
}

/// Lists that are alike have the same open decisions.
proof fn lemma_open_alike(left: Seq<JsonV>, right: Seq<JsonV>, project: Seq<char>)
    requires
        json::alike(JsonV::Array(left), JsonV::Array(right)),
        records::has_open(left, project),
    ensures
        records::has_open(right, project),
{
    let k = choose|k: int|
        0 <= k < left.len() && records::is_open(#[trigger] left[k], Some(project));
    assert(json::alike(left[k], right[k]));
    json::lemma_alike_members(left[k], right[k], "state"@);
    json::lemma_alike_members(left[k], right[k], "project"@);
    assert(records::is_open(right[k], Some(project)));
}

/// A second migration of a state adds no decision, and changes nothing. What is
/// asked of the files is what `migrate_legacy` ensures of them.
pub proof fn law_second_migration_adds_nothing(
    files: Texts,
    tokens: Seq<Seq<char>>,
    now: Seq<char>,
    later_tokens: Seq<Seq<char>>,
    later: Seq<char>,
)
    requires
        state::registry_of(files).dom().finite(),
        reads_migrated(files, migrated(files, tokens, now), tokens, now),
    ensures
        ({
            let after = migrated(files, tokens, now);
            &&& migrated_decisions(after, later_tokens, later) == state::decisions_of(after)
            &&& migrated(after, later_tokens, later) == after
        }),
{
    lemma_initial_names();
    lemma_entry_names();
    let before = state::registry_of(files);
    let order = json::name_order(before);
    let after = migrated(files, tokens, now);
    let registry = state::registry_of(after);
    let decisions = migrated_decisions(files, tokens, now);
    let changed = decisions.len() != state::decisions_of(files).len();
    json::lemma_name_order(before);
    law_migration_keeps_decisions(state::decisions_of(files), order, before, tokens, now);
    let none = JsonV::Array(Seq::empty());
    if !changed && files.contains_key("decisions.json"@) {
        assert(state::document(after, "decisions.json"@, none) == state::document(
            files,
            "decisions.json"@,
            none,
        ));
        assert(decisions =~= state::decisions_of(files));
        json::lemma_alike_itself(JsonV::Array(decisions));
    }
    let read = choose|read: Members|
        json::alike(JsonV::Object(completed_registry(before)), JsonV::Object(read))
            && state::registry_of(after) == #[trigger] state::normal_registry(read);
    if !changed {
        assert(state::document(after, "fleets.json"@, JsonV::Object(Map::empty()))
            == state::document(files, "fleets.json"@, JsonV::Object(Map::empty())));
    }
    assert(registry.dom() =~= before.dom()) by {
        if changed {
            assert(completed_registry(before).dom() == read.dom());
            assert(completed_registry(before).dom() =~= before.dom());
            assert(state::normal_registry(read).dom() =~= read.dom());
        }
    }
    json::lemma_name_order(registry);
    let projects = json::name_order(registry);
    assert forall|i: int| 0 <= i < projects.len() implies !lacks_decision(
        #[trigger] projects[i],
        registry[projects[i]],
        state::decisions_of(after),
    ) by {
        let project = projects[i];
        assert(projects.contains(project));
        assert(registry.dom().contains(project));
        assert(before.contains_key(project));
        assert(order.contains(project));
        let n = choose|n: int| 0 <= n < order.len() && order[n] == project;
        lemma_none_lacks(state::decisions_of(files), order, before, tokens, now, n);
        if changed {
            let written = completed_registry(before)[project];
            assert(completed_registry(before).contains_key(project));
            assert(json::alike(written, read[project]));
            law_migration_keeps_entries(before[project]);
            json::lemma_alike_members(written, read[project], "status"@);
            lemma_normal_keeps_status(read[project]);
        }
        if lacks_decision(project, registry[project], state::decisions_of(after)) {
            assert(before[project] is Object);
            assert(before[project].optional_string("status"@) == Some("need_decision"@));
            assert(records::has_open(decisions, project));
            lemma_open_alike(decisions, state::decisions_of(after), project);
        }
    }
    lemma_nothing_to_add(state::decisions_of(after), projects, registry, later_tokens, later);
}

proof fn lemma_normal_keeps_status(entry: JsonV)
    ensures
        state::normal_entry(entry).get("status"@) == entry.get("status"@),
        state::normal_entry(entry) is Object <==> entry is Object,
{
    lemma_entry_names();
}

} // verus!
