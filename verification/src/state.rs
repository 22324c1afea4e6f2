//! The state directory: its documents, and what is derived from them.
use vstd::prelude::*;
use crate::depth;
use crate::textmap::{TextMap, Texts};
use crate::textmap;
use crate::json::{Json, JsonV, Members, Object};
use crate::json;
use crate::outside::{compact, parse_json, pretty};
use crate::outside;
use crate::records::{reported_status, PLUGIN_ID};
use crate::records;
use crate::shallow;
use crate::text;
use crate::text::{cat2, cat3, contains, lines, listed, same, starts_with};

verus! {

/// The surroundings of a run: environment variables and working directory.
pub struct Env {
    /// `HOME`.
    pub home: Option<String>,
    /// `HERDR_PLUGIN_STATE_DIR`.
    pub plugin_state_dir: Option<String>,
    /// `HERDR_PLUGIN_ID`.
    pub plugin_id: Option<String>,
    /// `HERDR_COORDINATOR_HOME`.
    pub coordinator_home: Option<String>,
    /// `XDG_STATE_HOME`.
    pub state_home: Option<String>,
    /// `USER`, or else `USERNAME`.
    pub user: Option<String>,
    /// The working directory, or why there is none.
    pub current_dir: Result<String, String>,
}

/// A path appended to another, as on Unix: an absolute one replaces it.
pub open spec fn joined_path(base: Seq<char>, name: Seq<char>) -> Seq<char> {
    if text::has_prefix(name, "/"@) {
        name
    } else if base.len() == 0 || base.last() == '/' {
        base + name
    } else {
        base + "/"@ + name
    }
}

/// Appends a path to another, as on Unix: an absolute one replaces it.
pub fn join_path(base: &str, name: &str) -> (r: String)
    ensures
        r@ == joined_path(base@, name@),
{
    let length: usize = base.unicode_len();
    if starts_with(name, "/") {
        name.to_owned()
    } else if length == 0 || base.get_char(length - 1) == '/' {
        cat2(base, name)
    } else {
        cat3(base, "/", name)
    }
}

/// The home directory, the working directory where none is set.
pub open spec fn home_of(home: Option<String>) -> Seq<char> {
    match home {
        Some(path) => path@,
        None => "."@,
    }
}

/// The home directory, the working directory where none is set.
pub fn home_dir(home: &Option<String>) -> (r: String)
    ensures
        r@ == home_of(*home),
{
    match home {
        Some(path) => path.as_str().to_owned(),
        None => ".".to_owned(),
    }
}

/// Where Herdr keeps the state of the plugin under a state home.
pub open spec fn plugin_dir(base: Seq<char>, app: Seq<char>) -> Seq<char> {
    joined_path(joined_path(joined_path(base, app), "plugins"@), PLUGIN_ID@)
}

fn plugin_path(base: &str, app: &str) -> (r: String)
    ensures
        r@ == plugin_dir(base@, app@),
{
    let under = join_path(base, app);
    let plugins = join_path(under.as_str(), "plugins");
    join_path(plugins.as_str(), PLUGIN_ID)
}

/// The directory that holds the states of applications.
pub open spec fn state_base(env: Env) -> Seq<char> {
    match env.state_home {
        Some(path) => path@,
        None => joined_path(home_of(env.home), ".local/state"@),
    }
}

/// The directories that are looked for where no variable names one.
pub fn state_candidates(env: &Env) -> (r: Vec<String>)
    ensures
        text::texts(r@) == seq![
            plugin_dir(state_base(*env), "herdr"@),
            plugin_dir(state_base(*env), "herdr-dev"@),
        ],
{
    let base: String = match &env.state_home {
        Some(path) => path.as_str().to_owned(),
        None => join_path(home_dir(&env.home).as_str(), ".local/state"),
    };
    let mut out: Vec<String> = Vec::new();
    out.push(plugin_path(base.as_str(), "herdr"));
    out.push(plugin_path(base.as_str(), "herdr-dev"));
    proof {
        assert(text::texts(out@) =~= seq![
            plugin_dir(state_base(*env), "herdr"@),
            plugin_dir(state_base(*env), "herdr-dev"@),
        ]);
    }
    out
}

/// The state directory: what the plugin was given, then what the coordinator
/// was given, then the first plugin directory that is there, then a directory
/// under the home directory.
pub open spec fn state_dir(env: Env, present: Seq<Seq<char>>) -> Seq<char> {
    let first = plugin_dir(state_base(env), "herdr"@);
    let second = plugin_dir(state_base(env), "herdr-dev"@);
    if env.plugin_state_dir is Some {
        env.plugin_state_dir->0@
    } else if env.coordinator_home is Some {
        env.coordinator_home->0@
    } else if present.contains(first) {
        first
    } else if present.contains(second) {
        second
    } else {
        joined_path(home_of(env.home), ".herdr-coordinator"@)
    }
}

/// The value of a document: what its text parses to, or `default` where there
/// is no such file or it does not parse.
pub open spec fn document(files: Texts, name: Seq<char>, default: JsonV) -> JsonV {
    match textmap::text_under(files, name) {
        Some(body) => match outside::parsed_json(body) {
            Ok(value) => value,
            Err(_) => default,
        },
        None => default,
    }
}

/// The files after a document was written.
pub open spec fn written(files: Texts, name: Seq<char>, value: JsonV) -> Texts {
    files.insert(name, outside::pretty_json(value) + "\n"@)
}

/// What is read of a value is the value itself but for the digits of its
/// reals, and exactly where it holds none.
pub open spec fn read_as(value: JsonV, read: JsonV) -> bool {
    json::alike(value, read) && (depth::is_real_free(value) ==> read == value)
}

/// What is read of a value that was written, where it is not too deep.
pub open spec fn kept(value: JsonV, read: JsonV) -> bool {
    depth::is_shallow(value) ==> read_as(value, read)
}

/// The list that was written is the one that is read.
pub open spec fn reads_list(files: Texts, name: Seq<char>, list: Seq<JsonV>) -> bool {
    read_as(JsonV::Array(list), JsonV::Array(list_of(files, name)))
}

/// The registry that was written is the one that is read.
pub open spec fn reads_registry(files: Texts, registry: Members) -> bool {
    exists|read: Members|
        read_as(JsonV::Object(registry), JsonV::Object(read)) && registry_of(files)
            == #[trigger] normal_registry(read)
}

/// The entry that was put into the inbox is the last that is read, where the
/// inbox ended with a line; it then ends with a line again.
pub open spec fn reads_entry(before: Texts, after: Texts, entry: JsonV) -> bool {
    let (old_entries, entries) = (inbox_of(before), inbox_of(after));
    &&& ends_lines(inbox_text(after))
    &&& ends_lines(inbox_text(before)) ==> entries.len() > 0 && entries.drop_last()
        == old_entries && read_as(entry, entries.last())
}

/// What is the same but for the digits of reals is read as it is.
pub proof fn lemma_alike_kept(value: JsonV, read: JsonV)
    requires
        json::alike(value, read),
    ensures
        read_as(value, read),
{
    if depth::is_real_free(value) {
        depth::lemma_alike_exact(value, read);
    }
}

/// A list that is kept is the one that is read.
pub proof fn lemma_kept_list(files: Texts, name: Seq<char>, list: Seq<JsonV>)
    requires
        shallow::is_list(list),
        kept(JsonV::Array(list), document(files, name, JsonV::Array(Seq::empty()))),
    ensures
        reads_list(files, name, list),
{
}

/// A registry that is kept is the one that is read.
pub proof fn lemma_kept_registry(files: Texts, registry: Members)
    requires
        shallow::is_registry(registry),
        kept(
            JsonV::Object(registry),
            document(files, "fleets.json"@, JsonV::Object(Map::empty())),
        ),
    ensures
        reads_registry(files, registry),
{
    let read = document(files, "fleets.json"@, JsonV::Object(Map::empty()))->Object_0;
    assert(registry_of(files) == normal_registry(read));
}

/// The text of the inbox.
pub open spec fn inbox_text(files: Texts) -> Seq<char> {
    match textmap::text_under(files, "inbox.jsonl"@) {
        Some(body) => body,
        None => Seq::empty(),
    }
}

/// The files after an entry was put into the inbox.
pub open spec fn with_inbox_entry(files: Texts, value: JsonV) -> Texts {
    files.insert("inbox.jsonl"@, inbox_text(files) + outside::compact_json(value) + "\n"@)
}

/// The values of the lines that parse.
pub open spec fn parsed_lines(body: Seq<Seq<char>>) -> Seq<JsonV>
    decreases body.len(),
{
    if body.len() == 0 {
        Seq::empty()
    } else {
        match outside::parsed_json(body.last()) {
            Ok(value) => parsed_lines(body.drop_last()).push(value),
            Err(_) => parsed_lines(body.drop_last()),
        }
    }
}

/// The entries of the inbox.
pub open spec fn inbox_of(files: Texts) -> Seq<JsonV> {
    parsed_lines(text::lines_of(inbox_text(files)))
}

/// A document that is a list; anything else is an empty one.
pub open spec fn list_of(files: Texts, name: Seq<char>) -> Seq<JsonV> {
    document(files, name, JsonV::Array(Seq::empty())).items()
}

pub open spec fn decisions_of(files: Texts) -> Seq<JsonV> {
    list_of(files, "decisions.json"@)
}

pub open spec fn claims_of(files: Texts) -> Seq<JsonV> {
    list_of(files, "claims.json"@)
}

pub open spec fn controllers_of(files: Texts) -> Seq<JsonV> {
    list_of(files, "controllers.json"@)
}

pub open spec fn deliveries_of(files: Texts) -> Seq<JsonV> {
    list_of(files, "deliveries.json"@)
}

pub open spec fn runtime_doc(files: Texts) -> JsonV {
    document(files, "runtime.json"@, JsonV::Object(Map::empty()))
}

/// The status that an entry gives, `idle` where it gives none.
pub open spec fn stated_status(members: Members) -> Seq<char> {
    match JsonV::Object(members).optional_string("status"@) {
        Some(status) => status,
        None => "idle"@,
    }
}

/// A claim is reported, verified or accepted.
pub open spec fn is_claim_state(state: Option<Seq<char>>) -> bool {
    state == Some("reported"@) || state == Some("verified"@) || state == Some("accepted"@)
}

/// The members of an entry with its reported status filled in.
pub open spec fn with_reported(members: Members) -> Members {
    if members.contains_key("reported_status"@) {
        members
    } else {
        members.insert(
            "reported_status"@,
            JsonV::Text(records::reported_or_idle(stated_status(members))),
        )
    }
}

/// An entry as it is read: its reported status is filled in from its status,
/// and a claim state that is none is null.
pub open spec fn normal_entry(entry: JsonV) -> JsonV {
    match entry {
        JsonV::Object(members) => {
            let filled = with_reported(members);
            if is_claim_state(entry.optional_string("claim_state"@)) {
                JsonV::Object(filled)
            } else {
                JsonV::Object(filled.insert("claim_state"@, JsonV::Null))
            }
        },
        _ => entry,
    }
}

/// A registry as it is read.
pub open spec fn normal_registry(registry: Members) -> Members {
    Map::new(
        |project: Seq<char>| registry.contains_key(project),
        |project: Seq<char>| normal_entry(registry[project]),
    )
}

/// The registered projects.
pub open spec fn registry_of(files: Texts) -> Members {
    match document(files, "fleets.json"@, JsonV::Object(Map::empty())) {
        JsonV::Object(members) => normal_registry(members),
        _ => Map::empty(),
    }
}

pub(crate) fn fill_reported(object: &mut Object)
    ensures
        final(object)@ == with_reported(old(object)@),
{
    if !object.contains("reported_status") {
        let reported: String = match object.get("status") {
            Some(value) => match value.as_str() {
                Some(status) => if reported_status(status) {
                    status.to_owned()
                } else {
                    "idle".to_owned()
                },
                None => "idle".to_owned(),
            },
            None => "idle".to_owned(),
        };
        object.put("reported_status", Json::Text(reported));
    }
}

fn normalise(entry: &Json) -> (r: Json)
    ensures
        r@ == normal_entry(entry@),
{
    match entry {
        Json::Object(members) => {
            let mut object = members.clone();
            let known = match entry.get("claim_state") {
                Some(value) => match value.as_str() {
                    Some(state) => same(state, "reported") || same(state, "verified") || same(
                        state,
                        "accepted",
                    ),
                    None => false,
                },
                None => false,
            };
            fill_reported(&mut object);
            if !known {
                object.put("claim_state", Json::Null);
            }
            Json::Object(object)
        },
        _ => entry.clone(),
    }
}

fn normalise_all(members: &Object) -> (r: Object)
    ensures
        r@ == normal_registry(members@),
{
    let names = members.names();
    let ghost order = json::name_order(members@);
    let mut out = Object::new();
    let mut n: usize = 0;
    while n < names.len()
        invariant
            n <= names.len(),
            text::texts(names@) == order,
            json::is_name_order(order, members@),
            forall|k: int| 0 <= k < n ==> #[trigger] out@.contains_key(order[k]),
            forall|name: Seq<char>| #[trigger]
                out@.contains_key(name) ==> members@.contains_key(name) && out@[name]
                    == normal_entry(members@[name]),
        decreases names.len() - n,
    {
        proof {
            assert(order[n as int] == names@[n as int]@);
            assert(order.contains(names@[n as int]@));
        }
        match members.get(names[n].as_str()) {
            Some(entry) => {
                out.put(names[n].as_str(), normalise(entry));
            },
            None => {},
        }
        n = n + 1;
    }
    proof {
        assert forall|name: Seq<char>| members@.contains_key(name) implies out@.contains_key(
            name,
        ) by {
            assert(order.contains(name));
            let k = choose|k: int| 0 <= k < order.len() && order[k] == name;
            assert(out@.contains_key(order[k]));
        }
        assert(out@ =~= normal_registry(members@));
    }
    out
}

/// A state directory and the texts of its files.
#[derive(Debug)]
pub struct State {
    pub dir: String,
    pub files: TextMap,
}

impl State {
    /// The state directory that the surroundings name; `present` holds those
    /// candidates that are directories.
    pub fn discover(env: &Env, present: &[String]) -> (r: State)
        ensures
            r.dir@ == state_dir(*env, text::texts(present@)),
            r.files@ == Map::<Seq<char>, Seq<char>>::empty(),
    {
        let files = TextMap::new();
        match &env.plugin_state_dir {
            Some(path) => {
                return State { dir: path.as_str().to_owned(), files };
            },
            None => {},
        }
        match &env.coordinator_home {
            Some(path) => {
                return State { dir: path.as_str().to_owned(), files };
            },
            None => {},
        }
        let candidates = state_candidates(env);
        proof {
            assert(candidates@.len() == text::texts(candidates@).len());
            assert(candidates@[0]@ == text::texts(candidates@)[0]);
            assert(candidates@[1]@ == text::texts(candidates@)[1]);
        }
        if listed(present, candidates[0].as_str()) {
            State { dir: candidates[0].as_str().to_owned(), files }
        } else if listed(present, candidates[1].as_str()) {
            State { dir: candidates[1].as_str().to_owned(), files }
        } else {
            State { dir: join_path(home_dir(&env.home).as_str(), ".herdr-coordinator"), files }
        }
    }

    /// Whether Herdr runs the coordinator as a plugin.
    pub fn plugin_mode(&self, env: &Env) -> (r: bool)
        ensures
            r == is_plugin(self.dir@, *env),
    {
        env.plugin_state_dir.is_some() || env.plugin_id.is_some() || contains(
            cat3("/", self.dir.as_str(), "/").as_str(),
            "/plugins/",
        )
    }

    /// The path of a file in the directory.
    pub fn path(&self, name: &str) -> (r: String)
        ensures
            r@ == joined_path(self.dir@, name@),
    {
        join_path(self.dir.as_str(), name)
    }

    /// The value of a document, `default` where there is none.
    pub fn load(&self, name: &str, default: Json) -> (r: Json)
        ensures
            r@ == document(self.files@, name@, default@),
            depth::is_shallow(default@) ==> depth::is_shallow(r@),
    {
        match self.files.get(name) {
            Some(body) => match parse_json(body) {
                Ok(value) => value,
                Err(_) => default,
            },
            None => default,
        }
    }

    /// Writes a document. What was written is what the next read gives.
    pub fn write_json(&mut self, name: &str, value: &Json)
        ensures
            final(self).files@ == written(old(self).files@, name@, value@),
            final(self).dir == old(self).dir,
            forall|default: JsonV|
                kept(value@, #[trigger] document(final(self).files@, name@, default)),
    {
        let body = cat2(pretty(value).as_str(), "\n");
        self.files.put(name, body.as_str());
        proof {
            if depth::is_shallow(value@) {
                lemma_alike_kept(value@, outside::parsed_json(body@)->Ok_0);
            }
        }
    }

    /// Puts an entry at the end of the inbox. Where the inbox ended with a
    /// line, what was put in is what the next read gives last, unless it is
    /// too deep to be read.
    pub fn append_inbox(&mut self, value: &Json)
        ensures
            final(self).files@ == with_inbox_entry(old(self).files@, value@),
            final(self).dir == old(self).dir,
            ends_lines(inbox_text(final(self).files@)),
            depth::is_shallow(value@) ==> reads_entry(
                old(self).files@,
                final(self).files@,
                value@,
            ),
    {
        let line = compact(value);
        let before: String = match self.files.get("inbox.jsonl") {
            Some(body) => body.to_owned(),
            None => String::new(),
        };
        let ghost was = before@;
        let body = cat3(before.as_str(), line.as_str(), "\n");
        self.files.put("inbox.jsonl", body.as_str());
        proof {
            assert(was == inbox_text(old(self).files@));
            reveal_strlit("\n");
            assert(body@.last() == '\n');
            if ends_lines(was) {
                text::lemma_lines_append(was, line@);
                let ls = text::lines_of(was).push(line@);
                assert(ls.drop_last() =~= text::lines_of(was));
                assert(ls.last() == line@);
                let entries = inbox_of(old(self).files@);
                if depth::is_shallow(value@) {
                    let read = outside::parsed_json(line@)->Ok_0;
                    lemma_alike_kept(value@, read);
                    assert(entries.push(read).drop_last() =~= entries);
                }
            }
        }
    }

    /// The entries of the inbox; a line that does not parse is passed over.
    pub fn inbox_entries(&self) -> (r: Vec<Json>)
        ensures
            json::views(r@) == inbox_of(self.files@),
            depth::all_within(json::views(r@), 127),
    {
        let mut out: Vec<Json> = Vec::new();
        let body: &str = match self.files.get("inbox.jsonl") {
            Some(body) => body,
            None => "",
        };
        proof {
            reveal_strlit("");
            assert(body@ =~= inbox_text(self.files@));
            assert(json::views(out@) =~= Seq::<JsonV>::empty());
        }
        let all = lines(body);
        let ghost ls = text::texts(all@);
        let mut i: usize = 0;
        proof {
            assert(ls.take(0) =~= Seq::empty());
        }
        while i < all.len()
            invariant
                i <= all.len(),
                ls == text::texts(all@),
                json::views(out@) == parsed_lines(ls.take(i as int)),
                depth::all_within(json::views(out@), 127),
            decreases all.len() - i,
        {
            proof {
                assert(ls.take(i + 1).drop_last() =~= ls.take(i as int));
                assert(ls.take(i + 1).last() == all@[i as int]@);
            }
            let ghost pre = out@;
            match parse_json(all[i].as_str()) {
                Ok(value) => {
                    proof {
                        json::lemma_views_push(pre, value);
                        depth::lemma_push(json::views(pre), value@, 127);
                    }
                    out.push(value);
                },
                Err(_) => {},
            }
            i = i + 1;
        }
        proof {
            assert(ls.take(i as int) =~= ls);
        }
        out
    }

    pub(crate) fn list(&self, name: &str) -> (r: Vec<Json>)
        ensures
            json::views(r@) == list_of(self.files@, name@),
            shallow::is_list(json::views(r@)),
    {
        let value = self.load(name, Json::empty_array());
        proof {
            depth::lemma_array(Seq::empty(), 126);
        }
        value.into_items()
    }

    /// The registered projects: reported statuses are filled in, and claim
    /// states that are none are null.
    pub fn registry(&self) -> (r: Object)
        ensures
            r@ == registry_of(self.files@),
            shallow::is_registry(r@),
    {
        proof {
            depth::lemma_object(Map::empty(), 126);
        }
        match self.load("fleets.json", Json::empty_object()) {
            Json::Object(members) => {
                proof {
                    shallow::lemma_normal(members@);
                }
                normalise_all(&members)
            },
            _ => Object::new(),
        }
    }

    pub fn decisions(&self) -> (r: Vec<Json>)
        ensures
            json::views(r@) == decisions_of(self.files@),
            shallow::is_list(json::views(r@)),
    {
        self.list("decisions.json")
    }

    pub fn claims(&self) -> (r: Vec<Json>)
        ensures
            json::views(r@) == claims_of(self.files@),
            shallow::is_list(json::views(r@)),
    {
        self.list("claims.json")
    }

    pub fn controllers(&self) -> (r: Vec<Json>)
        ensures
            json::views(r@) == controllers_of(self.files@),
            shallow::is_list(json::views(r@)),
    {
        self.list("controllers.json")
    }

    pub fn deliveries(&self) -> (r: Vec<Json>)
        ensures
            json::views(r@) == deliveries_of(self.files@),
            shallow::is_list(json::views(r@)),
    {
        self.list("deliveries.json")
    }

    /// The runtime document, an empty object where there is none.
    pub fn runtime(&self) -> (r: Json)
        ensures
            r@ == runtime_doc(self.files@),
            depth::is_shallow(r@),
    {
        proof {
            depth::lemma_object(Map::empty(), 126);
        }
        self.load("runtime.json", Json::empty_object())
    }
}

/// Herdr runs the coordinator as a plugin: it says so, or the state directory
/// lies within a directory of plugins.
pub open spec fn is_plugin(dir: Seq<char>, env: Env) -> bool {
    env.plugin_state_dir is Some || env.plugin_id is Some || text::occurs(
        "/"@ + dir + "/"@,
        "/plugins/"@,
    )
}

/// A text is empty or ends with a line feed.
pub open spec fn ends_lines(body: Seq<char>) -> bool {
    body.len() == 0 || body.last() == '\n'
}

/// The registry as a document.
pub fn registry_as_value(registry: Object) -> (r: Json)
    ensures
        r@ == JsonV::Object(registry@),
{
    Json::Object(registry)
}

/// The projects with their entries, in the order of their names.
pub fn sorted_registry(registry: &Object) -> (r: Vec<(String, Json)>)
    ensures
        r@.len() == json::name_order(registry@).len(),
        json::is_name_order(json::name_order(registry@), registry@),
        forall|i: int|
            0 <= i < r@.len() ==> (#[trigger] r@[i]).0@ == json::name_order(registry@)[i]
                && registry@.contains_key(r@[i].0@) && r@[i].1@ == registry@[r@[i].0@],
{
    let names = registry.names();
    let ghost order = json::name_order(registry@);
    let mut out: Vec<(String, Json)> = Vec::new();
    let mut n: usize = 0;
    proof {
        assert(text::texts(names@).len() == names@.len());
    }
    while n < names.len()
        invariant
            n <= names.len(),
            names.len() == order.len(),
            text::texts(names@) == order,
            json::is_name_order(order, registry@),
            out@.len() == n,
            forall|i: int|
                0 <= i < n ==> (#[trigger] out@[i]).0@ == order[i] && registry@.contains_key(
                    out@[i].0@,
                ) && out@[i].1@ == registry@[out@[i].0@],
        decreases names.len() - n,
    {
        proof {
            assert(order[n as int] == names@[n as int]@);
            assert(order.contains(names@[n as int]@));
        }
        match registry.get(names[n].as_str()) {
            Some(entry) => {
                out.push((names[n].as_str().to_owned(), entry.clone()));
            },
            None => {},
        }
        n = n + 1;
    }
    out
}

/// Reading fills in what is missing once: an entry that was read, written and
/// read again is the same.
pub proof fn law_reading_is_idempotent(entry: JsonV)
    ensures
        normal_entry(normal_entry(entry)) == normal_entry(entry),
{
    reveal_strlit("reported_status");
    reveal_strlit("claim_state");
    reveal_strlit("status");
    assert("reported_status"@.len() == 15 && "claim_state"@.len() == 11 && "status"@.len() == 6);
    match entry {
        JsonV::Object(members) => {
            let once = normal_entry(entry)->Object_0;
            assert(with_reported(once) == once);
            if !is_claim_state(entry.optional_string("claim_state"@)) {
                assert(once.insert("claim_state"@, JsonV::Null) =~= once);
            }
        },
        _ => {},
    }
}

} // verus!
