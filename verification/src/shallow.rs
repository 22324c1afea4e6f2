//! What is made of documents that were read stays readable: every transition
//! keeps registry and lists no deeper than the parser follows.
use vstd::prelude::*;
use crate::args::Words;
use crate::args;
use crate::attention::ClockV;
use crate::attention;
use crate::depth;
use crate::dispatch;
use crate::fault::FaultV;
use crate::herdr;
use crate::json::{JsonV, Members};
use crate::json;
use crate::ledger::{AcceptanceV, CheckV, ClaimV, ExecutionV, QuestionV};
use crate::ledger;
use crate::order;
use crate::records;
use crate::runtime;
use crate::state;
use crate::textmap::Texts;
use crate::upkeep;

verus! {

/// A list that can be read.
pub open spec fn is_list(list: Seq<JsonV>) -> bool {
    depth::is_shallow(JsonV::Array(list))
}

/// A registry that can be read.
pub open spec fn is_registry(registry: Members) -> bool {
    depth::is_shallow(JsonV::Object(registry))
}

/// Everything that a change writes can be read.
pub open spec fn is_change(change: ledger::Change) -> bool {
    &&& is_registry(change.registry)
    &&& is_list(change.list)
    &&& depth::is_shallow(change.notice)
}

/// The members of an entry of a registry that can be read.
pub proof fn lemma_entry(registry: Members, project: Seq<char>)
    requires
        is_registry(registry),
        registry.contains_key(project),
    ensures
        depth::is_within(registry[project], 126),
        registry[project] is Object ==> depth::members_within(registry[project]->Object_0, 125),
{
    depth::lemma_object(registry, 126);
    assert(depth::is_within(registry[project], 126));
    match registry[project] {
        JsonV::Object(members) => depth::lemma_object(members, 125),
        _ => {},
    }
}

/// A registry with an entry whose members can be read.
pub proof fn lemma_with_entry(registry: Members, project: Seq<char>, members: Members)
    requires
        is_registry(registry),
        depth::members_within(members, 125),
    ensures
        is_registry(registry.insert(project, JsonV::Object(members))),
{
    depth::lemma_object(members, 125);
    depth::lemma_object(registry, 126);
    depth::lemma_insert(registry, project, JsonV::Object(members), 126);
    depth::lemma_object(registry.insert(project, JsonV::Object(members)), 126);
}

/// A registry as it is read can be read again.
pub proof fn lemma_normal(registry: Members)
    requires
        is_registry(registry),
    ensures
        is_registry(state::normal_registry(registry)),
{
    let normal = state::normal_registry(registry);
    assert forall|project: Seq<char>| #[trigger] normal.contains_key(
        project,
    ) implies depth::is_within(normal[project], 126) by {
        lemma_entry(registry, project);
        match normal[project] {
            JsonV::Object(members) => {
                assert(depth::members_within(members, 125));
                depth::lemma_object(members, 125);
            },
            _ => {},
        }
    }
    depth::lemma_object(normal, 126);
}

/// The members of an item of a list that can be read.
pub proof fn lemma_item(list: Seq<JsonV>, i: int)
    requires
        is_list(list),
        0 <= i < list.len(),
    ensures
        depth::is_within(list[i], 126),
        list[i] is Object ==> depth::members_within(list[i]->Object_0, 125),
{
    depth::lemma_array(list, 126);
    assert(depth::is_within(list[i], 126));
    match list[i] {
        JsonV::Object(members) => depth::lemma_object(members, 125),
        _ => {},
    }
}

/// A list with an item in the place of another.
pub proof fn lemma_with_item(list: Seq<JsonV>, i: int, members: Members)
    requires
        is_list(list),
        0 <= i < list.len(),
        depth::members_within(members, 125),
    ensures
        is_list(list.update(i, JsonV::Object(members))),
{
    depth::lemma_object(members, 125);
    depth::lemma_array(list, 126);
    depth::lemma_update(list, i, JsonV::Object(members), 126);
    depth::lemma_array(list.update(i, JsonV::Object(members)), 126);
}

/// A list with an item behind the others.
pub proof fn lemma_with_more(list: Seq<JsonV>, value: JsonV)
    requires
        is_list(list),
        depth::is_within(value, 126),
    ensures
        is_list(list.push(value)),
{
    depth::lemma_array(list, 126);
    depth::lemma_push(list, value, 126);
    depth::lemma_array(list.push(value), 126);
}

/// An object of scalars.
proof fn lemma_flat(members: Members, depth: nat)
    requires
        depth::members_within(members, 0),
        depth > 0,
    ensures
        depth::is_within(JsonV::Object(members), depth),
{
    depth::lemma_object(members, 0);
    depth::lemma_deeper(JsonV::Object(members), 1, depth);
}

/// An array of texts.
proof fn lemma_texts(texts: Seq<Seq<char>>, depth: nat)
    requires
        depth > 0,
    ensures
        depth::is_within(json::text_array(texts), depth),
{
    let items = json::text_array(texts).items();
    assert(depth::all_within(items, 0));
    depth::lemma_array(items, 0);
    depth::lemma_deeper(json::text_array(texts), 1, depth);
}

/// Registering keeps a registry readable.
pub proof fn lemma_register(
    registry: Members,
    project: Seq<char>,
    tab: Seq<char>,
    commander: Seq<char>,
    cwd: Result<Seq<char>, FaultV>,
    now: Seq<char>,
)
    requires
        is_registry(registry),
    ensures
        match ledger::register_outcome(registry, project, tab, commander, cwd, now) {
            Ok(after) => is_registry(after),
            Err(_) => true,
        },
{
    if cwd is Ok {
        let members = if registry.contains_key(project) {
            lemma_entry(registry, project);
            registry[project]->Object_0
        } else {
            Map::empty()
        };
        if !registry.contains_key(project) || registry[project] is Object {
            let entry = ledger::registered_entry(members, tab, commander, cwd->Ok_0, now);
            assert(depth::members_within(entry->Object_0, 125));
            lemma_with_entry(registry, project, entry->Object_0);
        }
    }
}

/// Taking a project out keeps a registry readable.
pub proof fn lemma_unregister(registry: Members, project: Seq<char>)
    requires
        is_registry(registry),
    ensures
        is_registry(registry.remove(project)),
{
    depth::lemma_object(registry, 126);
    depth::lemma_object(registry.remove(project), 126);
}

/// Setting a status keeps a registry readable.
pub proof fn lemma_set_status(
    registry: Members,
    decisions: Seq<JsonV>,
    project: Seq<char>,
    status: Seq<char>,
    note: Seq<char>,
    now: Seq<char>,
)
    requires
        is_registry(registry),
    ensures
        match ledger::set_status_outcome(registry, decisions, project, status, note, now) {
            Ok(after) => is_registry(after),
            Err(_) => true,
        },
{
    match ledger::entry_of(registry, project) {
        Ok(members) => {
            lemma_entry(registry, project);
            let set = members.insert("reported_status"@, JsonV::Text(status)).insert(
                "status"@,
                JsonV::Text(ledger::shown_status(decisions, project, status)),
            );
            let noted = if note.len() > 0 {
                set.insert("note"@, JsonV::Text(note))
            } else {
                set
            };
            let entry = noted.insert("updated_at"@, JsonV::Text(now));
            assert(depth::members_within(entry, 125));
            lemma_with_entry(registry, project, entry);
        },
        Err(_) => {},
    }
}

/// A claim keeps registry and claims readable.
pub proof fn lemma_report(
    registry: Members,
    decisions: Seq<JsonV>,
    claims: Seq<JsonV>,
    claim: ClaimV,
)
    requires
        is_registry(registry),
        is_list(claims),
        depth::is_within(claim.confidence, 0),
        depth::all_within(claim.evidence, 1),
    ensures
        match ledger::report_outcome(registry, decisions, claims, claim) {
            Ok(change) => is_change(change),
            Err(_) => true,
        },
{
    match ledger::entry_of(registry, claim.project) {
        Ok(members) => {
            lemma_entry(registry, claim.project);
            let entry = ledger::claimed_entry(members, claim, decisions)->Object_0;
            assert(depth::members_within(entry, 125));
            lemma_with_entry(registry, claim.project, entry);
            let record = ledger::claim_record(claim);
            let evidence = JsonV::Array(claim.evidence);
            depth::lemma_array(claim.evidence, 1);
            assert(depth::members_within(record->Object_0, 2)) by {
                depth::lemma_deeper(claim.confidence, 0, 2);
            }
            depth::lemma_object(record->Object_0, 2);
            depth::lemma_deeper(record, 3, 126);
            lemma_with_more(claims, record);
            let notice = ledger::claim_notice(claim);
            assert(depth::members_within(notice->Object_0, 0));
            lemma_flat(notice->Object_0, 127);
        },
        Err(_) => {},
    }
}

/// What was read from the arguments of a report is flat.
proof fn lemma_report_parts(
    args: Words,
    i: int,
    parts: args::ReportParts,
    tokens: Words,
    now: Seq<char>,
)
    requires
        depth::is_within(parts.confidence, 0),
        depth::all_within(parts.evidence, 1),
    ensures
        match args::report_scan(args, i, parts, tokens, now) {
            Ok(found) => depth::is_within(found.confidence, 0) && depth::all_within(
                found.evidence,
                1,
            ),
            Err(_) => true,
        },
    decreases args.len() - i,
{
    if i < args.len() {
        if args[i] == "--confidence"@ && i + 1 < args.len() {
            match args::confidence_of(args[i + 1]) {
                Ok(confidence) => lemma_report_parts(
                    args,
                    i + 2,
                    args::ReportParts { confidence, ..parts },
                    tokens,
                    now,
                ),
                Err(_) => {},
            }
        } else if args[i] == "--evidence"@ && i + 1 < args.len() {
            match ledger::evidence_outcome(args[i + 1], tokens[i + 1], now) {
                Ok(evidence) => {
                    assert(depth::members_within(evidence->Object_0, 0));
                    lemma_flat(evidence->Object_0, 1);
                    depth::lemma_push(parts.evidence, evidence, 1);
                    lemma_report_parts(
                        args,
                        i + 2,
                        args::ReportParts { evidence: parts.evidence.push(evidence), ..parts },
                        tokens,
                        now,
                    );
                },
                Err(_) => {},
            }
        } else if args[i] == "--confidence"@ || args[i] == "--evidence"@ {
        } else {
            lemma_report_parts(
                args,
                i + 1,
                args::ReportParts { words: parts.words.push(args[i]), ..parts },
                tokens,
                now,
            );
        }
    }
}

/// What `report` is given is flat.
pub proof fn lemma_report_words(args: Words, tokens: Words, now: Seq<char>)
    ensures
        match args::report_words(args, tokens, now) {
            Ok(given) => depth::is_within(given.confidence, 0) && depth::all_within(
                given.evidence,
                1,
            ),
            Err(_) => true,
        },
{
    lemma_report_parts(
        args,
        2,
        args::ReportParts {
            words: Seq::empty(),
            confidence: JsonV::Null,
            evidence: Seq::empty(),
        },
        tokens,
        now,
    );
}

/// A question keeps registry and decisions readable.
pub proof fn lemma_ask(registry: Members, decisions: Seq<JsonV>, asked: QuestionV)
    requires
        is_registry(registry),
        is_list(decisions),
    ensures
        match ledger::ask_outcome(registry, decisions, asked) {
            Ok(change) => is_change(change),
            Err(_) => true,
        },
{
    match ledger::entry_of(registry, asked.project) {
        Ok(members) => {
            lemma_entry(registry, asked.project);
            let entry = members.insert("status"@, JsonV::Text("need_decision"@)).insert(
                "note"@,
                JsonV::Text(asked.question),
            ).insert("updated_at"@, JsonV::Text(asked.created));
            assert(depth::members_within(entry, 125));
            lemma_with_entry(registry, asked.project, entry);
            lemma_texts(asked.options, 1);
            let record = ledger::decision_record(asked);
            assert(depth::members_within(record->Object_0, 1));
            depth::lemma_object(record->Object_0, 1);
            depth::lemma_deeper(record, 2, 126);
            lemma_with_more(decisions, record);
            let notice = ledger::decision_notice(asked);
            assert(depth::members_within(notice->Object_0, 1));
            depth::lemma_object(notice->Object_0, 1);
            depth::lemma_deeper(notice, 2, 127);
        },
        Err(_) => {},
    }
}

/// An answer keeps registry and decisions readable.
pub proof fn lemma_resolve(
    registry: Members,
    decisions: Seq<JsonV>,
    id: Seq<char>,
    answer: Seq<char>,
    now: Seq<char>,
)
    requires
        is_registry(registry),
        is_list(decisions),
    ensures
        match ledger::resolve_outcome(registry, decisions, id, answer, now) {
            Ok(change) => is_change(change),
            Err(_) => true,
        },
{
    let wanted = ledger::decision_named(id);
    records::lemma_first_where(decisions, wanted);
    match ledger::resolve_outcome(registry, decisions, id, answer, now) {
        Ok(change) => {
            let i = records::first_where(decisions, wanted)->0;
            let project = decisions[i].string("project"@);
            reveal_strlit("open");
            assert(decisions[i].string("state"@).len() > 0);
            lemma_item(decisions, i);
            let record = ledger::resolved_decision(decisions[i]->Object_0, answer, now);
            assert(depth::members_within(record->Object_0, 125));
            lemma_with_item(decisions, i, record->Object_0);
            lemma_entry(registry, project);
            let after = decisions.update(i, record);
            let members = registry[project]->Object_0;
            let entry = ledger::resolved_entry(members, after, project, answer, now);
            assert(depth::members_within(entry, 125));
            lemma_with_entry(registry, project, entry);
            assert(entry["status"@] is Text) by {
                reveal_strlit("status");
                reveal_strlit("note");
                reveal_strlit("updated_at");
                assert("status"@.len() == 6 && "note"@.len() == 4 && "updated_at"@.len() == 10);
            }
            assert(depth::members_within(change.notice->Object_0, 0));
            lemma_flat(change.notice->Object_0, 127);
        },
        Err(_) => {},
    }
}

/// A registry whose entry follows a claim stays readable.
proof fn lemma_claim_state(
    registry: Members,
    project: Seq<char>,
    claim_id: Seq<char>,
    value: JsonV,
    now: Seq<char>,
)
    requires
        is_registry(registry),
        registry.contains_key(project),
        depth::is_within(value, 125),
    ensures
        is_registry(ledger::with_claim_state(registry, project, claim_id, value, now)),
{
    lemma_entry(registry, project);
    let entry = registry[project];
    if entry.optional_string("claim_id"@) == Some(claim_id) {
        let members = entry->Object_0.insert("claim_state"@, value).insert(
            "updated_at"@,
            JsonV::Text(now),
        );
        assert(depth::members_within(members, 125));
        lemma_with_entry(registry, project, members);
    }
}

/// A verification keeps registry and claims readable.
pub proof fn lemma_verify(
    registry: Members,
    claims: Seq<JsonV>,
    check: CheckV,
    run: ExecutionV,
    token: Seq<char>,
)
    requires
        is_registry(registry),
        is_list(claims),
    ensures
        match ledger::verify_outcome(registry, claims, check, run, token) {
            Ok(change) => is_change(change),
            Err(_) => true,
        },
{
    match ledger::verify_outcome(registry, claims, check, run, token) {
        Ok(change) => {
            let wanted = records::claim_named(check.project, check.claim_id);
            records::lemma_first_where(claims, wanted);
            let i = records::claim_index(claims, check.project, Some(check.claim_id))->0;
            lemma_item(claims, i);
            let members = claims[i]->Object_0;
            let evidence = ledger::check_evidence(check, run, token);
            lemma_texts(check.argv, 1);
            assert(depth::members_within(evidence->Object_0, 1));
            depth::lemma_object(evidence->Object_0, 1);
            depth::lemma_deeper(evidence, 2, 124);
            let added = ledger::with_evidence(members, evidence)->Ok_0;
            assert(depth::members_within(added, 125)) by {
                let held = if members.contains_key("evidence"@) {
                    members["evidence"@]
                } else {
                    JsonV::Array(Seq::empty())
                };
                let items = held->Array_0;
                assert(depth::is_within(held, 125));
                depth::lemma_array(items, 124);
                depth::lemma_push(items, evidence, 124);
                depth::lemma_array(items.push(evidence), 124);
            }
            let passed = run.exit_code == 0;
            let claim = ledger::checked_claim(added, passed, run.finished_at);
            assert(depth::members_within(claim, 125));
            lemma_with_item(claims, i, claim);
            let value = ledger::member_or(claim, "state"@, "reported"@);
            lemma_claim_state(registry, check.project, check.claim_id, value, run.finished_at);
            let status = ledger::member_or(claim, "status"@, "unknown"@);
            assert(depth::is_within(status, 125));
            assert(depth::members_within(change.notice->Object_0, 125));
            depth::lemma_object(change.notice->Object_0, 125);
            depth::lemma_deeper(change.notice, 126, 127);
        },
        Err(_) => {},
    }
}

/// An acceptance keeps registry and claims readable.
pub proof fn lemma_accept(registry: Members, claims: Seq<JsonV>, given: AcceptanceV)
    requires
        is_registry(registry),
        is_list(claims),
    ensures
        match ledger::accept_outcome(registry, claims, given) {
            Ok((change, _)) => is_change(change),
            Err(_) => true,
        },
{
    match ledger::accept_outcome(registry, claims, given) {
        Ok((change, id)) => {
            match given.claim_id {
                Some(claim) => records::lemma_first_where(
                    claims,
                    records::claim_named(given.project, claim),
                ),
                None => records::lemma_last_where(claims, records::claim_of(given.project)),
            }
            let i = records::claim_index(claims, given.project, given.claim_id)->0;
            reveal_strlit("done");
            assert(claims[i].string("status"@).len() > 0);
            lemma_item(claims, i);
            let claim = ledger::accepted_claim(claims[i]->Object_0, given);
            assert(depth::members_within(claim, 125));
            lemma_with_item(claims, i, claim);
            lemma_claim_state(
                registry,
                given.project,
                id,
                JsonV::Text("accepted"@),
                given.now,
            );
            assert(depth::members_within(change.notice->Object_0, 0));
            lemma_flat(change.notice->Object_0, 127);
        },
        Err(_) => {},
    }
}

/// An object of texts, integers and nulls.
pub open spec fn is_flat(value: JsonV) -> bool {
    match value {
        JsonV::Object(members) => forall|name: Seq<char>| #[trigger]
            members.contains_key(name) ==> (members[name] is Text || members[name] is Int
                || members[name] is Null),
        _ => false,
    }
}

/// A list of objects of texts, integers and nulls.
pub open spec fn all_flat(items: Seq<JsonV>) -> bool {
    forall|i: int| 0 <= i < items.len() ==> is_flat(#[trigger] items[i])
}

/// A list of flat objects can be read, and holds no reals.
proof fn lemma_all_flat(items: Seq<JsonV>)
    requires
        all_flat(items),
    ensures
        is_list(items),
        depth::is_real_free(JsonV::Array(items)),
{
    assert forall|i: int| 0 <= i < items.len() implies depth::is_within(
        #[trigger] items[i],
        126,
    ) && depth::is_real_free(items[i]) by {
        assert(is_flat(items[i]));
        let members = items[i]->Object_0;
        assert(depth::members_within(members, 0));
        lemma_flat(members, 126);
        reveal_with_fuel(depth::is_real_free, 2);
    }
    depth::lemma_array(items, 126);
}

/// What one project asks for is flat.
proof fn lemma_project_flat(
    project: Seq<char>,
    entry: JsonV,
    decisions: Seq<JsonV>,
    claims: Seq<JsonV>,
    runtime: JsonV,
    clock: ClockV,
)
    ensures
        all_flat(
            attention::project_entries(project, entry, decisions, claims, runtime, clock),
        ),
{
}

/// What the projects ask for is flat.
proof fn lemma_registry_flat(
    projects: Seq<Seq<char>>,
    registry: Members,
    decisions: Seq<JsonV>,
    claims: Seq<JsonV>,
    runtime: JsonV,
    clock: ClockV,
)
    ensures
        all_flat(
            attention::registry_entries(projects, registry, decisions, claims, runtime, clock),
        ),
    decreases projects.len(),
{
    if projects.len() > 0 {
        lemma_registry_flat(projects.drop_last(), registry, decisions, claims, runtime, clock);
        lemma_project_flat(
            projects.last(),
            registry[projects.last()],
            decisions,
            claims,
            runtime,
            clock,
        );
    }
}

/// Arranging flat objects leaves them flat.
proof fn lemma_arranged_flat(items: Seq<JsonV>, ahead: spec_fn(JsonV, JsonV) -> bool)
    requires
        all_flat(items),
    ensures
        all_flat(order::arranged(items, ahead)),
    decreases items.len(),
{
    if items.len() > 0 {
        lemma_arranged_flat(items.drop_last(), ahead);
        let rest = order::arranged(items.drop_last(), ahead);
        let at = order::lemma_placed_somewhere(rest, items.last(), ahead);
        assert(is_flat(items.last()));
    }
}

/// The attention queue can be read, and holds no reals.
pub proof fn lemma_queue(
    registry: Members,
    decisions: Seq<JsonV>,
    claims: Seq<JsonV>,
    runtime: JsonV,
    clock: ClockV,
)
    ensures
        is_list(attention::queue_at(registry, decisions, claims, runtime, clock)),
        depth::is_real_free(
            JsonV::Array(attention::queue_at(registry, decisions, claims, runtime, clock)),
        ),
{
    assert forall|decision: JsonV| is_flat(
        #[trigger] attention::decision_entry(decision, clock),
    ) by {}
    assert(all_flat(attention::decision_entries(decisions, clock)));
    assert(all_flat(attention::runtime_entries(runtime, registry, clock)));
    lemma_registry_flat(
        json::name_order(registry),
        registry,
        decisions,
        claims,
        runtime,
        clock,
    );
    let all = attention::collected(registry, decisions, claims, runtime, clock);
    lemma_arranged_flat(all, attention::urgency());
    lemma_all_flat(attention::queue_at(registry, decisions, claims, runtime, clock));
}

/// A list with a value in the place of another.
pub proof fn lemma_put(list: Seq<JsonV>, i: int, value: JsonV)
    requires
        is_list(list),
        0 <= i < list.len(),
        depth::is_within(value, 126),
    ensures
        is_list(list.update(i, value)),
{
    depth::lemma_array(list, 126);
    depth::lemma_update(list, i, value, 126);
    depth::lemma_array(list.update(i, value), 126);
}

/// Setting a member that is less deep leaves a value as deep as it was.
pub proof fn lemma_set(value: JsonV, name: Seq<char>, member: JsonV, depth: nat)
    requires
        depth::is_within(value, depth + 1),
        depth::is_within(member, depth),
    ensures
        depth::is_within(records::with_member(value, name, member), depth + 1),
{
    match value {
        JsonV::Object(members) => {
            depth::lemma_object(members, depth);
            depth::lemma_insert(members, name, member, depth);
            depth::lemma_object(members.insert(name, member), depth);
        },
        _ => {
            let members = Map::<Seq<char>, JsonV>::empty().insert(name, member);
            depth::lemma_object(members, depth);
        },
    }
}

/// A delivery that waits again can be read.
pub proof fn lemma_returned(delivery: JsonV)
    requires
        depth::is_within(delivery, 126),
    ensures
        depth::is_within(dispatch::returned(delivery), 126),
{
    let first = records::with_member(delivery, "state"@, JsonV::Text("pending"@));
    lemma_set(delivery, "state"@, JsonV::Text("pending"@), 125);
    let second = records::with_member(first, "assigned_controller"@, JsonV::Null);
    lemma_set(first, "assigned_controller"@, JsonV::Null, 125);
    lemma_set(second, "lease_expires_at_ms"@, JsonV::Null, 125);
}

/// A delivery that was leased can be read.
pub proof fn lemma_leased(delivery: JsonV, controller: Seq<char>, current: int, now: Seq<char>)
    requires
        depth::is_within(delivery, 126),
    ensures
        depth::is_within(dispatch::leased_to(delivery, controller, current, now), 126),
{
    let first = records::with_member(delivery, "state"@, JsonV::Text("leased"@));
    lemma_set(delivery, "state"@, JsonV::Text("leased"@), 125);
    let second = records::with_member(first, "assigned_controller"@, JsonV::Text(controller));
    lemma_set(first, "assigned_controller"@, JsonV::Text(controller), 125);
    let end = JsonV::Int(current + dispatch::LEASE_MS);
    let third = records::with_member(second, "lease_expires_at_ms"@, end);
    lemma_set(second, "lease_expires_at_ms"@, end, 125);
    let attempts = JsonV::Int(dispatch::attempts_of(delivery) + 1);
    let fourth = records::with_member(third, "attempts"@, attempts);
    lemma_set(third, "attempts"@, attempts, 125);
    lemma_set(fourth, "updated_at"@, JsonV::Text(now), 125);
}

/// A controller that was given something can be read.
pub proof fn lemma_assigned(controller: JsonV, current: int, now: Seq<char>)
    requires
        depth::is_within(controller, 126),
    ensures
        depth::is_within(dispatch::assigned(controller, current, now), 126),
{
    let first = records::with_member(controller, "last_assigned_at_ms"@, JsonV::Int(current));
    lemma_set(controller, "last_assigned_at_ms"@, JsonV::Int(current), 125);
    lemma_set(first, "updated_at"@, JsonV::Text(now), 125);
}

/// A delivery that its controller was told of, or not, can be read.
pub proof fn lemma_notified(delivery: JsonV, error: Option<Seq<char>>, now: Seq<char>)
    requires
        depth::is_within(delivery, 126),
    ensures
        depth::is_within(dispatch::notified(delivery, error, now), 126),
{
    match error {
        None => {
            let first = records::with_member(delivery, "notified_at"@, JsonV::Text(now));
            lemma_set(delivery, "notified_at"@, JsonV::Text(now), 125);
            let told = records::with_member(first, "last_error"@, JsonV::Null);
            lemma_set(first, "last_error"@, JsonV::Null, 125);
            lemma_set(told, "updated_at"@, JsonV::Text(now), 125);
        },
        Some(words) => {
            lemma_returned(delivery);
            let back = dispatch::returned(delivery);
            let told = records::with_member(back, "last_error"@, JsonV::Text(words));
            lemma_set(back, "last_error"@, JsonV::Text(words), 125);
            lemma_set(told, "updated_at"@, JsonV::Text(now), 125);
        },
    }
}

/// A delivery that was acknowledged can be read.
pub proof fn lemma_acknowledged(delivery: JsonV, now: Seq<char>)
    requires
        depth::is_within(delivery, 126),
    ensures
        depth::is_within(dispatch::acknowledged(delivery, now), 126),
{
    let first = records::with_member(delivery, "state"@, JsonV::Text("acknowledged"@));
    lemma_set(delivery, "state"@, JsonV::Text("acknowledged"@), 125);
    let second = records::with_member(first, "acknowledged_at"@, JsonV::Text(now));
    lemma_set(first, "acknowledged_at"@, JsonV::Text(now), 125);
    let third = records::with_member(second, "lease_expires_at_ms"@, JsonV::Null);
    lemma_set(second, "lease_expires_at_ms"@, JsonV::Null, 125);
    lemma_set(third, "updated_at"@, JsonV::Text(now), 125);
}

/// A delivery that was given up can be read.
pub proof fn lemma_released(delivery: JsonV, now: Seq<char>)
    requires
        depth::is_within(delivery, 126),
    ensures
        depth::is_within(dispatch::released(delivery, now), 126),
{
    lemma_returned(delivery);
    lemma_set(dispatch::returned(delivery), "updated_at"@, JsonV::Text(now), 125);
}

/// Deliveries whose lapsed leases were taken back can be read.
pub proof fn lemma_swept(
    deliveries: Seq<JsonV>,
    controllers: Seq<JsonV>,
    runtime: JsonV,
    current: int,
)
    requires
        is_list(deliveries),
    ensures
        is_list(dispatch::swept(deliveries, controllers, runtime, current)),
{
    let after = dispatch::swept(deliveries, controllers, runtime, current);
    depth::lemma_array(deliveries, 126);
    assert forall|i: int| 0 <= i < after.len() implies depth::is_within(
        #[trigger] after[i],
        126,
    ) by {
        assert(depth::is_within(deliveries[i], 126));
        lemma_returned(deliveries[i]);
    }
    depth::lemma_array(after, 126);
}

/// The cursor that stands for none can be read.
pub proof fn lemma_start(total: int)
    ensures
        depth::is_shallow(
            JsonV::Object(
                map![
                    "inbox_offset"@ => JsonV::Int(total),
                    "attention_active"@ => JsonV::Array(Seq::empty()),
                ],
            ),
        ),
{
    let members = map![
        "inbox_offset"@ => JsonV::Int(total),
        "attention_active"@ => JsonV::Array(Seq::empty()),
    ];
    depth::lemma_array(Seq::empty(), 125);
    assert(depth::members_within(members, 126));
    depth::lemma_object(members, 126);
}

/// The cursor that a reconciliation leaves can be read.
pub proof fn lemma_cursor(cursor: JsonV, inbox: Seq<JsonV>, attention: Seq<JsonV>)
    requires
        depth::is_shallow(cursor),
    ensures
        depth::is_shallow(dispatch::cursor_after(cursor, inbox, attention)),
{
    let total = JsonV::Int(inbox.len() as int);
    let first = records::with_member(cursor, "inbox_offset"@, total);
    lemma_set(cursor, "inbox_offset"@, total, 126);
    lemma_texts(dispatch::source_keys(attention), 126);
    lemma_set(
        first,
        "attention_active"@,
        json::text_array(dispatch::source_keys(attention)),
        126,
    );
}

/// A member of a value is less deep than the value.
proof fn lemma_member(value: JsonV, name: Seq<char>, other: JsonV, depth: nat)
    requires
        depth::is_within(value, depth + 1),
        depth::is_within(other, depth),
    ensures
        depth::is_within(dispatch::member_or(value, name, other), depth),
        depth::is_within(value.at(name), depth),
{
    match value {
        JsonV::Object(members) => {
            depth::lemma_object(members, depth);
        },
        _ => {},
    }
}

/// What is queued from the inbox can be read where no entry is nested to the
/// last level that the parser follows.
proof fn lemma_with_inbox(
    deliveries: Seq<JsonV>,
    inbox: Seq<JsonV>,
    offset: int,
    count: int,
    tokens: Seq<Seq<char>>,
    now: Seq<char>,
)
    requires
        is_list(deliveries),
        depth::all_within(inbox, 126),
        0 <= offset,
        count <= inbox.len(),
    ensures
        is_list(dispatch::with_inbox(deliveries, inbox, offset, count, tokens, now)),
    decreases count,
{
    if count > offset && count > 0 {
        lemma_with_inbox(deliveries, inbox, offset, count - 1, tokens, now);
        let entry = inbox[count - 1];
        assert(depth::is_within(entry, 126));
        lemma_member(entry, "ts"@, JsonV::Text(now), 125);
        let made = dispatch::inbox_delivery(count - 1, entry, tokens[count - 1], now);
        assert(depth::members_within(made->Object_0, 125));
        depth::lemma_object(made->Object_0, 125);
        lemma_with_more(
            dispatch::with_inbox(deliveries, inbox, offset, count - 1, tokens, now),
            made,
        );
    }
}

/// What is queued from the attention queue can be read.
proof fn lemma_with_attention(
    deliveries: Seq<JsonV>,
    attention: Seq<JsonV>,
    active: JsonV,
    count: int,
    tokens: Seq<Seq<char>>,
    now: Seq<char>,
)
    requires
        is_list(deliveries),
        is_list(attention),
        count <= attention.len(),
    ensures
        is_list(
            dispatch::with_attention(deliveries, attention, active, count, tokens, now),
        ),
    decreases count,
{
    if count > 0 {
        lemma_with_attention(deliveries, attention, active, count - 1, tokens, now);
        let item = attention[count - 1];
        lemma_item(attention, count - 1);
        lemma_member(item, "action"@, JsonV::Null, 125);
        lemma_member(item, "priority"@, JsonV::Int(50), 125);
        lemma_member(item, "created_at"@, JsonV::Text(now), 125);
        let key = dispatch::source_key_of(item)->0;
        let made = dispatch::attention_delivery(item, key, tokens[count - 1], now);
        assert(depth::members_within(made->Object_0, 125));
        depth::lemma_object(made->Object_0, 125);
        lemma_with_more(
            dispatch::with_attention(deliveries, attention, active, count - 1, tokens, now),
            made,
        );
    }
}

/// The deliveries that a reconciliation leaves can be read where no entry of
/// the inbox is nested to the last level that the parser follows.
pub proof fn lemma_reconciled(
    inbox: Seq<JsonV>,
    attention: Seq<JsonV>,
    cursor: JsonV,
    deliveries: Seq<JsonV>,
    tokens: Seq<Seq<char>>,
    now: Seq<char>,
)
    requires
        depth::all_within(inbox, 126),
        is_list(attention),
        is_list(deliveries),
    ensures
        is_list(
            dispatch::reconciled(inbox, attention, cursor, deliveries, tokens, now),
        ),
{
    let offset = dispatch::offset_of(cursor, inbox.len() as int);
    lemma_with_inbox(deliveries, inbox, offset, inbox.len() as int, tokens, now);
    lemma_with_attention(
        dispatch::with_inbox(deliveries, inbox, offset, inbox.len() as int, tokens, now),
        attention,
        cursor.at("attention_active"@),
        attention.len() as int,
        tokens.skip(inbox.len() as int),
        now,
    );
}

/// Decisions can be read with those that a migration adds.
pub proof fn lemma_legacy(
    decisions: Seq<JsonV>,
    projects: Seq<Seq<char>>,
    registry: Members,
    tokens: Seq<Seq<char>>,
    now: Seq<char>,
)
    requires
        is_list(decisions),
    ensures
        is_list(upkeep::with_legacy(decisions, projects, registry, tokens, now)),
    decreases projects.len(),
{
    if projects.len() > 0 {
        lemma_legacy(decisions, projects.drop_last(), registry, tokens, now);
        let rest = upkeep::with_legacy(decisions, projects.drop_last(), registry, tokens, now);
        let project = projects.last();
        let made = upkeep::legacy_decision(
            project,
            registry[project],
            tokens[projects.len() - 1],
            now,
        );
        lemma_texts(Seq::empty(), 1);
        assert(json::text_array(Seq::empty()).items() =~= Seq::<JsonV>::empty());
        assert(depth::members_within(made->Object_0, 1));
        depth::lemma_object(made->Object_0, 1);
        depth::lemma_deeper(made, 2, 126);
        lemma_with_more(rest, made);
    }
}

/// A registry can be read with the members that a migration adds.
pub proof fn lemma_completed(registry: Members)
    requires
        is_registry(registry),
    ensures
        is_registry(upkeep::completed_registry(registry)),
{
    let completed = upkeep::completed_registry(registry);
    assert forall|project: Seq<char>| #[trigger] completed.contains_key(
        project,
    ) implies depth::is_within(completed[project], 126) by {
        lemma_entry(registry, project);
        match completed[project] {
            JsonV::Object(members) => {
                assert(depth::members_within(members, 125));
                depth::lemma_object(members, 125);
            },
            _ => {},
        }
    }
    depth::lemma_object(completed, 126);
}

/// A member of a value that can be read can be read.
pub proof fn lemma_within(value: JsonV, name: Seq<char>)
    requires
        depth::is_shallow(value),
    ensures
        depth::is_shallow(herdr::member_or_self(value, name)),
{
    match value {
        JsonV::Object(members) => {
            depth::lemma_object(members, 126);
            if members.contains_key(name) {
                depth::lemma_deeper(members[name], 126, 127);
            }
        },
        _ => {},
    }
}

/// What is remembered of a runtime document that can be read can be read.
pub proof fn lemma_remembered(previous: JsonV)
    requires
        depth::is_shallow(previous),
    ensures
        depth::is_shallow(runtime::remembered(previous)),
{
    depth::lemma_array(Seq::empty(), 125);
    lemma_member(previous, "agents"@, JsonV::Array(Seq::empty()), 126);
    lemma_member(previous, "herdr_version"@, JsonV::Null, 126);
    lemma_member(previous, "protocol"@, JsonV::Null, 126);
    let members = runtime::remembered(previous)->Object_0;
    assert(depth::members_within(members, 126));
    depth::lemma_object(members, 126);
}

/// The live state of a project is as deep as the agents are.
proof fn lemma_live_state(entry: JsonV, agents: Seq<JsonV>, before: JsonV, observed: Seq<char>)
    requires
        depth::all_within(agents, 125),
    ensures
        depth::is_within(runtime::live_state(entry, agents, before, observed), 125),
{
    let wanted = runtime::called(entry.string("commander"@));
    records::lemma_last_where(agents, wanted);
    depth::lemma_object(Map::empty(), 123);
    match records::last_where(agents, wanted) {
        Some(i) => {
            assert(depth::is_within(agents[i], 125));
            let none = JsonV::Object(Map::empty());
            lemma_member(agents[i], "state_labels"@, none, 124);
            lemma_member(agents[i], "pane_id"@, none, 124);
            lemma_member(agents[i], "workspace_id"@, none, 124);
        },
        None => {},
    }
    let members = runtime::live_state(entry, agents, before, observed)->Object_0;
    assert(depth::members_within(members, 124));
    depth::lemma_object(members, 124);
}

/// The runtime document can be read where the snapshot can be, and the event
/// can be as a member of it.
pub proof fn lemma_runtime(
    registry: Members,
    previous: JsonV,
    snapshot: JsonV,
    connected: bool,
    error: Option<Seq<char>>,
    source: Seq<char>,
    last_event: Option<JsonV>,
    observed: Seq<char>,
)
    requires
        depth::is_shallow(snapshot),
        last_event is Some ==> depth::is_within(last_event->0, 126),
    ensures
        depth::is_shallow(
            runtime::runtime_of(
                registry,
                previous,
                snapshot,
                connected,
                error,
                source,
                last_event,
                observed,
            ),
        ),
{
    lemma_member(snapshot, "agents"@, JsonV::Null, 126);
    lemma_member(snapshot, "version"@, JsonV::Null, 126);
    lemma_member(snapshot, "protocol"@, JsonV::Null, 126);
    let agents = runtime::agents_of(snapshot);
    depth::lemma_array(agents, 125);
    depth::lemma_array(Seq::empty(), 125);
    let projects = runtime::live_states(registry, agents, previous, observed);
    assert forall|project: Seq<char>| #[trigger] projects.contains_key(
        project,
    ) implies depth::is_within(projects[project], 125) by {
        lemma_live_state(
            registry[project],
            agents,
            runtime::live_before(previous, project),
            observed,
        );
    }
    depth::lemma_object(projects, 125);
    let members = runtime::runtime_of(
        registry,
        previous,
        snapshot,
        connected,
        error,
        source,
        last_event,
        observed,
    )->Object_0;
    assert(depth::members_within(members, 126));
    depth::lemma_object(members, 126);
}

/// What initialising writes for the cursor of the deliveries can be read.
pub proof fn lemma_delivery_start(files: Texts)
    ensures
        depth::is_shallow(upkeep::delivery_start(files)),
{
    lemma_texts(dispatch::source_keys(state::list_of(files, "attention.json"@)), 126);
    let members = upkeep::delivery_start(files)->Object_0;
    assert(depth::members_within(members, 126));
    depth::lemma_object(members, 126);
}

/// The record of an import can be read.
pub proof fn lemma_import_record(source: Seq<char>, names: Seq<Seq<char>>, ms: int)
    ensures
        depth::is_shallow(upkeep::import_record(source, names, ms)),
{
    lemma_texts(names, 126);
    let members = upkeep::import_record(source, names, ms)->Object_0;
    assert(depth::members_within(members, 126));
    depth::lemma_object(members, 126);
}

} // verus!
