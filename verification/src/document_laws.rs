//! What the documents are for: what is stored is read, what older states lack
//! is added, and nothing that was there is lost.
use vstd::prelude::*;
use crate::claim_laws;
use crate::dispatch_laws;
use crate::dispatch;
use crate::json::{JsonV, Members};
use crate::json;
use crate::outside;
use crate::records;
use crate::state::Env;
use crate::state;
use crate::text;
use crate::textmap::Texts;
use crate::upkeep;

verus! {

/// The words differ: in length, or in a letter.
proof fn lemma_words()
    ensures
        "id"@.len() == 2,
        "done"@.len() == 4 && "done"@[0] == 'd',
        "idle"@.len() == 4 && "idle"@[0] == 'i',
        "note"@.len() == 4 && "note"@[0] == 'n',
        "open"@.len() == 4 && "open"@[0] == 'o',
        "state"@.len() == 5,
        "source"@.len() == 6 && "source"@[1] == 'o',
        "status"@.len() == 6 && "status"@[1] == 't',
        "blocked"@.len() == 7 && "blocked"@[0] == 'b',
        "options"@.len() == 7 && "options"@[0] == 'o',
        "project"@.len() == 7 && "project"@[0] == 'p',
        "working"@.len() == 7 && "working"@[0] == 'w',
        "accepted"@.len() == 8 && "accepted"@[0] == 'a',
        "claim_id"@.len() == 8 && "claim_id"@[0] == 'c',
        "imported"@.len() == 8 && "imported"@[0] == 'i',
        "question"@.len() == 8 && "question"@[0] == 'q',
        "reported"@.len() == 8 && "reported"@[0] == 'r',
        "verified"@.len() == 8 && "verified"@[0] == 'v',
        "created_at"@.len() == 10 && "created_at"@[0] == 'c',
        "resolution"@.len() == 10 && "resolution"@[0] == 'r',
        "updated_at"@.len() == 10 && "updated_at"@[0] == 'u',
        "claim_state"@.len() == 11 && "claim_state"@[0] == 'c',
        "resolved_at"@.len() == 11 && "resolved_at"@[0] == 'r',
        "inbox_offset"@.len() == 12,
        "need_decision"@.len() == 13,
        "reported_status"@.len() == 15,
        "attention_active"@.len() == 16,
        "imported_at_unix_ms"@.len() == 19,
{
    reveal_strlit("id");
    reveal_strlit("done");
    reveal_strlit("idle");
    reveal_strlit("note");
    reveal_strlit("open");
    reveal_strlit("state");
    reveal_strlit("source");
    reveal_strlit("status");
    reveal_strlit("blocked");
    reveal_strlit("options");
    reveal_strlit("project");
    reveal_strlit("working");
    reveal_strlit("accepted");
    reveal_strlit("claim_id");
    reveal_strlit("imported");
    reveal_strlit("question");
    reveal_strlit("reported");
    reveal_strlit("verified");
    reveal_strlit("created_at");
    reveal_strlit("resolution");
    reveal_strlit("updated_at");
    reveal_strlit("claim_state");
    reveal_strlit("resolved_at");
    reveal_strlit("inbox_offset");
    reveal_strlit("need_decision");
    reveal_strlit("reported_status");
    reveal_strlit("attention_active");
    reveal_strlit("imported_at_unix_ms");
}


/// The words differ: in length, or in a letter.
proof fn lemma_names()
    ensures
        "claims.json"@.len() == 11 && "claims.json"@[0] == 'c',
        "fleets.json"@.len() == 11 && "fleets.json"@[0] == 'f',
        "inbox.jsonl"@.len() == 11 && "inbox.jsonl"@[0] == 'i',
        "inbox.cursor"@.len() == 12 && "inbox.cursor"@[0] == 'i',
        "runtime.json"@.len() == 12 && "runtime.json"@[0] == 'r',
        "dispatch.json"@.len() == 13,
        "attention.json"@.len() == 14 && "attention.json"@[0] == 'a',
        "decisions.json"@.len() == 14 && "decisions.json"@[0] == 'd',
        "summaries.json"@.len() == 14 && "summaries.json"@[0] == 's',
        "deliveries.json"@.len() == 15,
        "controllers.json"@.len() == 16,
        "legacy-import.json"@.len() == 18,
        "delivery-state.json"@.len() == 19,
{
    reveal_strlit("claims.json");
    reveal_strlit("fleets.json");
    reveal_strlit("inbox.jsonl");
    reveal_strlit("inbox.cursor");
    reveal_strlit("runtime.json");
    reveal_strlit("dispatch.json");
    reveal_strlit("attention.json");
    reveal_strlit("decisions.json");
    reveal_strlit("summaries.json");
    reveal_strlit("deliveries.json");
    reveal_strlit("controllers.json");
    reveal_strlit("legacy-import.json");
    reveal_strlit("delivery-state.json");
}


/// A document is what its file holds, as far as that can be read, and the
/// default otherwise; writing one changes its own file only.
pub proof fn law_document_is_its_file(
    files: Texts,
    name: Seq<char>,
    default: JsonV,
    value: JsonV,
)
    ensures
        ({
            let read = state::document(files, name, default);
            let parsed = outside::parsed_json(files[name]);
            &&& files.contains_key(name) && parsed is Ok ==> read == parsed->Ok_0
            &&& files.contains_key(name) && parsed is Err ==> read == default
            &&& !files.contains_key(name) ==> read == default
            &&& state::written(files, name, value) == files.insert(
                name,
                outside::pretty_json(value) + "\n"@,
            )
        }),
{
}

/// The lists are those of their own files; a document that is no list holds
/// nothing.
pub proof fn law_lists_are_their_files(files: Texts)
    ensures
        state::decisions_of(files) == list_in(files, "decisions.json"@),
        state::claims_of(files) == list_in(files, "claims.json"@),
        state::controllers_of(files) == list_in(files, "controllers.json"@),
        state::deliveries_of(files) == list_in(files, "deliveries.json"@),
        state::list_of(files, "attention.json"@) == list_in(files, "attention.json"@),
{
}

/// The items of a list that a file holds.
pub open spec fn list_in(files: Texts, name: Seq<char>) -> Seq<JsonV> {
    match outside::parsed_json(files[name]) {
        Ok(JsonV::Array(items)) => if files.contains_key(name) {
            items
        } else {
            Seq::empty()
        },
        _ => Seq::empty(),
    }
}

/// A status that a commander can report.
pub open spec fn can_be_reported(status: JsonV) -> bool {
    ||| status == JsonV::Text("working"@)
    ||| status == JsonV::Text("idle"@)
    ||| status == JsonV::Text("done"@)
    ||| status == JsonV::Text("blocked"@)
}

/// The status that an entry without a report is taken to have reported: its
/// own where that can be reported, and idle otherwise.
pub open spec fn is_taken_as_reported(entry: JsonV, reported: Option<JsonV>) -> bool {
    let status = entry.get("status"@);
    &&& entry.get("reported_status"@) is Some ==> reported == entry.get("reported_status"@)
    &&& entry.get("reported_status"@) is None && status is Some && can_be_reported(status->0)
        ==> reported == status
    &&& entry.get("reported_status"@) is None && !(status is Some && can_be_reported(status->0))
        ==> reported == Some(JsonV::Text("idle"@))
}

/// The registry holds the projects of its file. An entry is read as it stands,
/// but for the report that it lacks, and for a state of a claim that is none.
pub proof fn law_registry_is_read(files: Texts, members: Members, project: Seq<char>)
    requires
        files.contains_key("fleets.json"@),
        outside::parsed_json(files["fleets.json"@]) == Ok::<JsonV, Seq<char>>(
            JsonV::Object(members),
        ),
    ensures
        ({
            let registry = state::registry_of(files);
            let (entry, read) = (members[project], registry[project]);
            let claim = entry.get("claim_state"@);
            let known = claim == Some(JsonV::Text("reported"@)) || claim == Some(
                JsonV::Text("verified"@),
            ) || claim == Some(JsonV::Text("accepted"@));
            &&& registry.contains_key(project) == members.contains_key(project)
            &&& members.contains_key(project) && !(entry is Object) ==> read == entry
            &&& members.contains_key(project) && entry is Object ==> {
                &&& claim_laws::same_but(
                    entry,
                    read,
                    seq!["reported_status"@, "claim_state"@],
                )
                &&& is_taken_as_reported(entry, read.get("reported_status"@))
                &&& known ==> read.get("claim_state"@) == claim
                &&& !known ==> read.get("claim_state"@) == Some(JsonV::Null)
            }
        }),
{
    lemma_words();
    let names = seq!["reported_status"@, "claim_state"@];
    assert(names[0] == "reported_status"@ && names[1] == "claim_state"@);
    assert(names.contains("reported_status"@) && names.contains("claim_state"@));
}

/// A registry that is missing, or is no object, holds no project.
pub proof fn law_no_registry_is_empty(files: Texts)
    requires
        !files.contains_key("fleets.json"@) || !(outside::parsed_json(
            files["fleets.json"@],
        ) matches Ok(JsonV::Object(_))),
    ensures
        state::registry_of(files) == Map::<Seq<char>, JsonV>::empty(),
{
    assert(state::normal_registry(Map::empty()) =~= Map::<Seq<char>, JsonV>::empty());
}

/// The inbox holds what its lines say, in their order; a line that cannot be
/// read is left out, and no other.
pub proof fn law_inbox_is_read_by_lines(
    files: Texts,
    first: Seq<Seq<char>>,
    line: Seq<char>,
    second: Seq<Seq<char>>,
)
    requires
        files.contains_key("inbox.jsonl"@),
        text::lines_of(files["inbox.jsonl"@]) == first.push(line) + second,
    ensures
        ({
            let before = state::parsed_lines(first);
            let behind = state::parsed_lines(second);
            match outside::parsed_json(line) {
                Ok(value) => state::inbox_of(files) == before.push(value) + behind,
                Err(_) => state::inbox_of(files) == before + behind,
            }
        }),
{
    lemma_lines_apart(first.push(line), second);
    assert(first.push(line).drop_last() =~= first);
}

proof fn lemma_lines_apart(first: Seq<Seq<char>>, second: Seq<Seq<char>>)
    ensures
        state::parsed_lines(first + second) == state::parsed_lines(first) + state::parsed_lines(
            second,
        ),
    decreases second.len(),
{
    if second.len() == 0 {
        assert(first + second =~= first);
        assert(state::parsed_lines(first) + state::parsed_lines(second) =~= state::parsed_lines(
            first,
        ));
    } else {
        lemma_lines_apart(first, second.drop_last());
        assert((first + second).drop_last() =~= first + second.drop_last());
        assert((first + second).last() == second.last());
        assert(state::parsed_lines(first + second) =~= state::parsed_lines(first)
            + state::parsed_lines(second));
    }
}

/// An entry of the inbox is written as a line of its own behind all that is
/// there, and no other file changes.
pub proof fn law_entry_goes_behind(files: Texts, value: JsonV)
    ensures
        ({
            let after = state::with_inbox_entry(files, value);
            let line = outside::compact_json(value) + "\n"@;
            &&& files.contains_key("inbox.jsonl"@) ==> after == files.insert(
                "inbox.jsonl"@,
                files["inbox.jsonl"@] + line,
            )
            &&& !files.contains_key("inbox.jsonl"@) ==> after == files.insert(
                "inbox.jsonl"@,
                line,
            )
        }),
{
    let line = outside::compact_json(value) + "\n"@;
    let held = state::inbox_text(files);
    assert(held + outside::compact_json(value) + "\n"@ =~= held + line);
    if !files.contains_key("inbox.jsonl"@) {
        assert(held + line =~= line);
    }
}

/// The directory of the state is that of the plugin where one is given, else
/// that of the coordinator; else that of an installed plugin, and that in the
/// home directory where there is none.
pub proof fn law_state_directory_is_found(env: Env, present: Seq<Seq<char>>)
    ensures
        ({
            let dir = state::state_dir(env, present);
            let home = if env.home is Some {
                env.home->0@
            } else {
                "."@
            };
            let base = if env.state_home is Some {
                env.state_home->0@
            } else {
                state::joined_path(home, ".local/state"@)
            };
            let first = plugin_under(base, "herdr"@);
            let second = plugin_under(base, "herdr-dev"@);
            &&& env.plugin_state_dir is Some ==> dir == env.plugin_state_dir->0@
            &&& env.plugin_state_dir is None && env.coordinator_home is Some ==> dir
                == env.coordinator_home->0@
            &&& env.plugin_state_dir is None && env.coordinator_home is None ==> {
                &&& present.contains(first) ==> dir == first
                &&& !present.contains(first) && present.contains(second) ==> dir == second
                &&& !present.contains(first) && !present.contains(second) ==> dir
                    == state::joined_path(home, ".herdr-coordinator"@)
            }
        }),
{
}

/// Where a plugin keeps its state.
pub open spec fn plugin_under(base: Seq<char>, app: Seq<char>) -> Seq<char> {
    state::joined_path(
        state::joined_path(state::joined_path(base, app), "plugins"@),
        "sm-yjr.herdr-coordinator"@,
    )
}

/// The command is that of a plugin where a plugin is named, or where its state
/// stands among those of the plugins.
pub proof fn law_plugin_is_known(dir: Seq<char>, env: Env, before: Seq<char>, behind: Seq<char>)
    ensures
        env.plugin_state_dir is Some || env.plugin_id is Some ==> state::is_plugin(dir, env),
        "/"@ + dir + "/"@ == before + "/plugins/"@ + behind ==> state::is_plugin(dir, env),
        state::is_plugin(dir, env) ==> env.plugin_state_dir is Some || env.plugin_id is Some
            || exists|a: Seq<char>, b: Seq<char>| "/"@ + dir + "/"@ == #[trigger] (a
            + "/plugins/"@ + b),
{
    let whole = "/"@ + dir + "/"@;
    crate::text_laws::law_parts_of_a_text(before, "/plugins/"@, behind);
    if text::occurs(whole, "/plugins/"@) {
        let at = choose|at: int| text::occurs_at(whole, "/plugins/"@, at);
        let (a, b) = (whole.take(at), whole.skip(at + "/plugins/"@.len()));
        assert(whole =~= a + "/plugins/"@ + b);
    }
}

/// A new directory gets every document that it lacks, empty; the deliveries
/// begin behind all of the inbox, and take what is queued as known. What is
/// there stays.
pub proof fn law_init_fills_in(files: Texts, key: Seq<char>)
    ensures
        ({
            let after = upkeep::initialised(files);
            let none = outside::pretty_json(JsonV::Array(Seq::empty())) + "\n"@;
            let start = upkeep::delivery_start(upkeep::furnished(files));
            &&& !files.contains_key("fleets.json"@) ==> after["fleets.json"@]
                == outside::pretty_json(JsonV::Object(Map::empty())) + "\n"@
            &&& !files.contains_key("decisions.json"@) ==> after["decisions.json"@] == none
            &&& !files.contains_key("claims.json"@) ==> after["claims.json"@] == none
            &&& !files.contains_key("attention.json"@) ==> after["attention.json"@] == none
            &&& !files.contains_key("controllers.json"@) ==> after["controllers.json"@] == none
            &&& !files.contains_key("deliveries.json"@) ==> after["deliveries.json"@] == none
            &&& !files.contains_key("inbox.jsonl"@) ==> after["inbox.jsonl"@].len() == 0
            &&& !files.contains_key("inbox.cursor"@) ==> after["inbox.cursor"@] == "0"@
            &&& !files.contains_key("delivery-state.json"@) ==> after["delivery-state.json"@]
                == outside::pretty_json(start) + "\n"@
            &&& start.get("inbox_offset"@) == Some(
                JsonV::Int(state::inbox_of(after).len() as int),
            )
            &&& dispatch_laws::is_listed(start.at("attention_active"@), key)
                == is_queued_under(state::list_of(after, "attention.json"@), key)
        }),
{
    lemma_names();
    lemma_words();
    let base = upkeep::furnished(files);
    let after = upkeep::initialised(files);
    assert(after["inbox.jsonl"@] == base["inbox.jsonl"@]);
    assert(after["attention.json"@] == base["attention.json"@]);
    assert(state::inbox_of(after) == state::inbox_of(base));
    let queue = state::list_of(base, "attention.json"@);
    assert(state::list_of(after, "attention.json"@) == queue);
    let cursor = dispatch::cursor_after(JsonV::Null, state::inbox_of(base), queue);
    dispatch_laws::law_cursor_moves_behind_all(
        JsonV::Null,
        state::inbox_of(base),
        queue,
        Seq::empty(),
        key,
    );
    assert(cursor.at("attention_active"@) == upkeep::delivery_start(base).at(
        "attention_active"@,
    ));
}

/// An observed entry of the queue goes by a key.
pub open spec fn is_queued_under(queue: Seq<JsonV>, key: Seq<char>) -> bool {
    exists|i: int|
        0 <= i < queue.len() && dispatch_laws::is_observed(#[trigger] queue[i])
            && dispatch_laws::item_key(queue[i]) == key
}

/// A project needs a decision and nobody has been asked for it.
pub open spec fn is_waiting(entry: JsonV, decisions: Seq<JsonV>, project: Seq<char>) -> bool {
    &&& entry is Object
    &&& entry.get("status"@) == Some(JsonV::Text("need_decision"@))
    &&& forall|k: int|
        0 <= k < decisions.len() ==> !asks_for(#[trigger] decisions[k], project)
}

/// An open decision of a project.
pub open spec fn asks_for(decision: JsonV, project: Seq<char>) -> bool {
    &&& decision.get("state"@) == Some(JsonV::Text("open"@))
    &&& decision.string("project"@) == project
}

/// The decision that an entry of an older state stands for.
pub open spec fn stands_for(decision: JsonV, project: Seq<char>, entry: JsonV) -> bool {
    &&& decision.get("project"@) == Some(JsonV::Text(project))
    &&& decision.get("state"@) == Some(JsonV::Text("open"@))
    &&& text::has_prefix(decision.string("id"@), project + "-legacy-"@)
    &&& entry.at("note"@) is Text ==> decision.get("question"@) == entry.get("note"@)
    &&& !(entry.at("note"@) is Text) ==> decision.get("question"@) == Some(
        JsonV::Text("需要用户拍板"@),
    )
    &&& decision.get("options"@) == Some(JsonV::Array(Seq::empty()))
    &&& decision.get("source"@) == Some(JsonV::Text("legacy_registry_migration"@))
    &&& entry.at("updated_at"@) is Text ==> decision.get("created_at"@) == entry.get(
        "updated_at"@,
    )
    &&& decision.get("resolved_at"@) == Some(JsonV::Null)
    &&& decision.get("resolution"@) == Some(JsonV::Null)
}

proof fn lemma_waiting(project: Seq<char>, entry: JsonV, decisions: Seq<JsonV>)
    ensures
        is_waiting(entry, decisions, project) == upkeep::lacks_decision(project, entry, decisions),
{
    lemma_words();
    assert("open"@.len() > 0);
    if records::has_open(decisions, project) {
        let k = choose|k: int|
            0 <= k < decisions.len() && records::is_open(#[trigger] decisions[k], Some(project));
        assert(asks_for(decisions[k], project));
    }
    if upkeep::lacks_decision(project, entry, decisions) {
        assert forall|k: int| 0 <= k < decisions.len() implies !asks_for(
            #[trigger] decisions[k],
            project,
        ) by {
            assert(!records::is_open(decisions[k], Some(project)));
        }
    }
}

proof fn lemma_stands_for(project: Seq<char>, entry: JsonV, token: Seq<char>, now: Seq<char>)
    ensures
        stands_for(
            upkeep::legacy_decision(project, entry, token, now),
            project,
            entry,
        ),
        !(entry.at("updated_at"@) is Text) ==> upkeep::legacy_decision(
            project,
            entry,
            token,
            now,
        ).get("created_at"@) == Some(JsonV::Text(now)),
{
    lemma_words();
    crate::text_laws::law_parts_of_a_text(Seq::empty(), project + "-legacy-"@, token);
}

/// A state that names a project as needing a decision, with none open, gets
/// one for it, that asks what was noted; every decision that is added is of
/// this kind, and those that were there stay in their places.
pub proof fn law_migration_asks_what_was_waiting(
    files: Texts,
    tokens: Seq<Seq<char>>,
    now: Seq<char>,
    project: Seq<char>,
    k: int,
)
    requires
        state::registry_of(files).dom().finite(),
    ensures
        ({
            let registry = state::registry_of(files);
            let before = state::list_of(files, "decisions.json"@);
            let after = upkeep::migrated_decisions(files, tokens, now);
            &&& registry.contains_key(project) && is_waiting(registry[project], before, project)
                ==> exists|n: int|
                before.len() <= n < after.len() && stands_for(
                    #[trigger] after[n],
                    project,
                    registry[project],
                )
            &&& before.len() <= after.len()
            &&& 0 <= k < before.len() ==> after[k] == before[k]
            &&& before.len() <= k < after.len() ==> {
                let owner = after[k].string("project"@);
                &&& registry.contains_key(owner)
                &&& is_waiting(registry[owner], before, owner)
                &&& stands_for(after[k], owner, registry[owner])
            }
        }),
{
    lemma_words();
    let registry = state::registry_of(files);
    let before = state::decisions_of(files);
    let order = json::name_order(registry);
    let after = upkeep::migrated_decisions(files, tokens, now);
    json::lemma_name_order(registry);
    assert forall|i: int, j: int| 0 <= i < j < order.len() implies order[i] != order[j] by {
        text::lemma_before_irreflexive(order[i]);
        assert(text::before(order[i], order[j]));
    }
    upkeep::law_migration_adds_what_is_needed(before, order, registry, tokens, now);
    if before.len() <= k < after.len() {
        let n = lemma_maker(before, after, order, registry, tokens, now, k);
        lemma_stands_for(order[n], registry[order[n]], tokens[n], now);
        lemma_waiting(order[n], registry[order[n]], before);
        assert(order.contains(order[n]));
    }
    if registry.contains_key(project) && is_waiting(registry[project], before, project) {
        lemma_waiting(project, registry[project], before);
        assert(order.contains(project));
        let i = choose|i: int| 0 <= i < order.len() && order[i] == project;
        assert(!upkeep::lacks_decision(order[i], registry[order[i]], after));
        assert(records::has_open(after, project));
        let n = choose|n: int|
            0 <= n < after.len() && records::is_open(#[trigger] after[n], Some(project));
        if n < before.len() {
            assert(after[n] == before[n]);
            assert(asks_for(before[n], project));
            assert(false);
        }
        let m = lemma_maker(before, after, order, registry, tokens, now, n);
        lemma_stands_for(order[m], registry[order[m]], tokens[m], now);
        assert(order[m] == project);
        assert(stands_for(after[n], project, registry[project]));
    }
}

proof fn lemma_maker(
    before: Seq<JsonV>,
    after: Seq<JsonV>,
    order: Seq<Seq<char>>,
    registry: Members,
    tokens: Seq<Seq<char>>,
    now: Seq<char>,
    k: int,
) -> (n: int)
    requires
        upkeep::adds_needed(before, after, order, registry, tokens, now),
        before.len() <= k < after.len(),
    ensures
        0 <= n < order.len(),
        upkeep::lacks_decision(order[n], registry[order[n]], before),
        after[k] == upkeep::legacy_decision(order[n], registry[order[n]], tokens[n], now),
{
    let n = choose|n: int|
        0 <= n < order.len() && upkeep::lacks_decision(order[n], registry[order[n]], before)
            && after[k] == upkeep::legacy_decision(
            #[trigger] order[n],
            registry[order[n]],
            tokens[n],
            now,
        );
    n
}

/// A migration stores the decisions where one was added or none were stored,
/// provides the claims, and completes the entries where a decision was added:
/// with the report, the claim and its state that they lack. Nothing else
/// changes.
pub proof fn law_migration_is_stored(
    files: Texts,
    tokens: Seq<Seq<char>>,
    now: Seq<char>,
    project: Seq<char>,
)
    ensures
        ({
            let before = state::list_of(files, "decisions.json"@);
            let decisions = upkeep::migrated_decisions(files, tokens, now);
            let after = upkeep::migrated(files, tokens, now);
            let registry = state::registry_of(files);
            let full = upkeep::completed_registry(registry);
            let adds = decisions.len() != before.len();
            let (entry, made) = (registry[project], full[project]);
            &&& adds || !files.contains_key("decisions.json"@) ==> after["decisions.json"@]
                == outside::pretty_json(JsonV::Array(decisions)) + "\n"@
            &&& !files.contains_key("claims.json"@) ==> after["claims.json"@]
                == outside::pretty_json(JsonV::Array(Seq::empty())) + "\n"@
            &&& files.contains_key("claims.json"@) ==> after["claims.json"@]
                == files["claims.json"@]
            &&& adds ==> after["fleets.json"@] == outside::pretty_json(JsonV::Object(full))
                + "\n"@
            &&& !adds && files.contains_key("decisions.json"@) && files.contains_key(
                "claims.json"@,
            ) ==> after == files
            &&& full.contains_key(project) == registry.contains_key(project)
            &&& registry.contains_key(project) && !(entry is Object) ==> made == entry
            &&& registry.contains_key(project) && entry is Object ==> {
                &&& claim_laws::same_but(
                    entry,
                    made,
                    seq!["reported_status"@, "claim_id"@, "claim_state"@],
                )
                &&& is_taken_as_reported(entry, made.get("reported_status"@))
                &&& is_filled(entry, made, "claim_id"@)
                &&& is_filled(entry, made, "claim_state"@)
            }
        }),
{
    lemma_words();
    lemma_names();
    let names = seq!["reported_status"@, "claim_id"@, "claim_state"@];
    assert(names[0] == "reported_status"@ && names[1] == "claim_id"@ && names[2]
        == "claim_state"@);
    assert(names.contains("reported_status"@) && names.contains("claim_id"@) && names.contains(
        "claim_state"@,
    ));
    if !files.contains_key("claims.json"@) {
        assert(state::claims_of(files) =~= Seq::<JsonV>::empty());
    }
}

/// A member that is there stays, and one that is missing is null.
pub open spec fn is_filled(before: JsonV, after: JsonV, name: Seq<char>) -> bool {
    &&& before.get(name) is Some ==> after.get(name) == before.get(name)
    &&& before.get(name) is None ==> after.get(name) == Some(JsonV::Null)
}

/// The files that an import brings.
pub open spec fn is_brought(name: Seq<char>) -> bool {
    ||| name == "fleets.json"@ || name == "claims.json"@ || name == "decisions.json"@
    ||| name == "attention.json"@ || name == "inbox.jsonl"@ || name == "inbox.cursor"@
    ||| name == "controllers.json"@ || name == "deliveries.json"@
    ||| name == "delivery-state.json"@ || name == "dispatch.json"@
    ||| name == "summaries.json"@
}

/// A plugin that finds an older state takes over each of its files that it
/// lacks, and records which, from where and when. It does so once, and where
/// there is an older state only.
pub proof fn law_import_takes_over(
    files: Texts,
    env: Env,
    older: Option<Texts>,
    source: Seq<char>,
    ms: int,
    name: Seq<char>,
)
    ensures
        ({
            let due = env.plugin_state_dir is Some && older is Some && !files.contains_key(
                "legacy-import.json"@,
            );
            let after = upkeep::imported(files, env, older, source, ms);
            let names = upkeep::imported_names(files, env, older);
            let taken = older->0.contains_key(name) && !files.contains_key(name) && is_brought(
                name,
            );
            let record = upkeep::import_record(source, names, ms);
            &&& !due ==> after == files && names.len() == 0
            &&& due ==> {
                &&& names.contains(name) == taken
                &&& taken ==> after.contains_key(name) && after[name] == older->0[name]
                &&& !taken && name != "legacy-import.json"@ ==> after.contains_key(name)
                    == files.contains_key(name) && (files.contains_key(name) ==> after[name]
                    == files[name])
                &&& after["legacy-import.json"@] == outside::pretty_json(record) + "\n"@
                &&& record.get("source"@) == Some(JsonV::Text(source))
                &&& record.get("imported_at_unix_ms"@) == Some(JsonV::Int(ms))
                &&& record.at("imported"@).items() == names.map_values(
                    |one: Seq<char>| JsonV::Text(one),
                )
            }
        }),
{
    lemma_names();
    lemma_words();
    if upkeep::imports_now(files, env, older) {
        let list = upkeep::carried();
        lemma_brought(name);
        lemma_imports(files, older->0, list.len() as int, name);
        let names = upkeep::imported_names(files, env, older);
        let record = upkeep::import_record(source, names, ms);
        assert(record.at("imported"@).items() =~= names.map_values(
            |one: Seq<char>| JsonV::Text(one),
        ));
        assert(list.take(list.len() as int) =~= list);
    }
}

proof fn lemma_brought(name: Seq<char>)
    ensures
        upkeep::carried().contains(name) == is_brought(name),
        !is_brought("legacy-import.json"@),
{
    lemma_names();
    let list = upkeep::carried();
    assert(list[0] == "fleets.json"@ && list[1] == "claims.json"@ && list[2]
        == "decisions.json"@);
    assert(list[3] == "attention.json"@ && list[4] == "inbox.jsonl"@ && list[5]
        == "inbox.cursor"@);
    assert(list[6] == "controllers.json"@ && list[7] == "deliveries.json"@);
    assert(list[8] == "delivery-state.json"@ && list[9] == "dispatch.json"@ && list[10]
        == "summaries.json"@);
}

proof fn lemma_imports(files: Texts, older: Texts, count: int, name: Seq<char>)
    requires
        0 <= count <= upkeep::carried().len(),
    ensures
        ({
            let after = upkeep::with_imports(files, older, count);
            let names = upkeep::imports(files, older, count);
            let taken = older.contains_key(name) && !files.contains_key(name)
                && upkeep::carried().take(count).contains(name);
            &&& names.contains(name) == taken
            &&& taken ==> after.contains_key(name) && after[name] == older[name]
            &&& !taken ==> after.contains_key(name) == files.contains_key(name) && (
            files.contains_key(name) ==> after[name] == files[name])
        }),
    decreases count,
{
    let list = upkeep::carried();
    if count > 0 {
        lemma_imports(files, older, count - 1, name);
        let (part, less) = (list.take(count), list.take(count - 1));
        let last = list[count - 1];
        assert(part =~= less.push(last));
        assert(part.contains(name) == (less.contains(name) || name == last)) by {
            if less.contains(name) {
                let i = choose|i: int| 0 <= i < less.len() && less[i] == name;
                assert(part[i] == name);
            }
            assert(part[count - 1] == last);
            if part.contains(name) && name != last {
                let i = choose|i: int| 0 <= i < part.len() && part[i] == name;
                assert(less[i] == name);
            }
        }
        let names = upkeep::imports(files, older, count);
        let fewer = upkeep::imports(files, older, count - 1);
        if fewer.contains(name) {
            let i = choose|i: int| 0 <= i < fewer.len() && fewer[i] == name;
            assert(names[i] == name);
        }
        if names.len() > fewer.len() {
            assert(names[fewer.len() as int] == last);
        }
        if names.contains(name) && !fewer.contains(name) {
            let i = choose|i: int| 0 <= i < names.len() && names[i] == name;
            if i < fewer.len() {
                assert(fewer[i] == name);
            }
        }
    }
}

/// The older state stands where the coordinator kept it: in its own directory
/// where that is given, else in the home directory.
pub proof fn law_older_state_is_found(env: Env)
    ensures
        ({
            let home = if env.home is Some {
                env.home->0@
            } else {
                "."@
            };
            &&& env.coordinator_home is Some ==> upkeep::older_dir(env)
                == env.coordinator_home->0@
            &&& env.coordinator_home is None ==> upkeep::older_dir(env) == state::joined_path(
                home,
                ".herdr-coordinator"@,
            )
        }),
{
}

} // verus!
