//! What registering, reporting a status, asking and answering are for: the
//! entry of one project says what was said of it, and a decision is open from
//! its question to its answer.
use vstd::prelude::*;
use crate::claim_laws;
use crate::fault::{FaultKind, FaultV};
use crate::fault;
use crate::json::{JsonV, Members};
use crate::ledger::{Change, QuestionV};
use crate::ledger;
use crate::records;

verus! {

/// The words differ: in length, or in a letter.
proof fn lemma_words()
    ensures
        "id"@.len() == 2 && "id"@[0] == 'i',
        "ts"@.len() == 2 && "ts"@[0] == 't',
        "cwd"@.len() == 3,
        "idle"@.len() == 4 && "idle"@[0] == 'i',
        "note"@.len() == 4 && "note"@[0] == 'n',
        "open"@.len() == 4 && "open"@[0] == 'o',
        "type"@.len() == 4 && "type"@[0] == 't',
        "state"@.len() == 5,
        "source"@.len() == 6 && "source"@[1] == 'o',
        "status"@.len() == 6 && "status"@[1] == 't',
        "tab_id"@.len() == 6 && "tab_id"@[1] == 'a',
        "options"@.len() == 7 && "options"@[0] == 'o',
        "project"@.len() == 7 && "project"@[0] == 'p',
        "summary"@.len() == 7 && "summary"@[0] == 's',
        "claim_id"@.len() == 8 && "claim_id"@[0] == 'c',
        "question"@.len() == 8 && "question"@[0] == 'q',
        "resolved"@.len() == 8 && "resolved"@[0] == 'r',
        "commander"@.len() == 9,
        "created_at"@.len() == 10 && "created_at"@[0] == 'c',
        "resolution"@.len() == 10 && "resolution"@[0] == 'r',
        "updated_at"@.len() == 10 && "updated_at"@[0] == 'u',
        "claim_state"@.len() == 11 && "claim_state"@[0] == 'c',
        "decision_id"@.len() == 11 && "decision_id"@[0] == 'd',
        "resolved_at"@.len() == 11 && "resolved_at"@[0] == 'r',
        "need_decision"@.len() == 13,
        "reported_status"@.len() == 15,
        "commander_report"@.len() == 16,
        "decision_resolved"@.len() == 17,
        "decision_requested"@.len() == 18,
{
    reveal_strlit("id");
    reveal_strlit("ts");
    reveal_strlit("cwd");
    reveal_strlit("idle");
    reveal_strlit("note");
    reveal_strlit("open");
    reveal_strlit("type");
    reveal_strlit("state");
    reveal_strlit("source");
    reveal_strlit("status");
    reveal_strlit("tab_id");
    reveal_strlit("options");
    reveal_strlit("project");
    reveal_strlit("summary");
    reveal_strlit("claim_id");
    reveal_strlit("question");
    reveal_strlit("resolved");
    reveal_strlit("commander");
    reveal_strlit("created_at");
    reveal_strlit("resolution");
    reveal_strlit("updated_at");
    reveal_strlit("claim_state");
    reveal_strlit("decision_id");
    reveal_strlit("resolved_at");
    reveal_strlit("need_decision");
    reveal_strlit("reported_status");
    reveal_strlit("commander_report");
    reveal_strlit("decision_resolved");
    reveal_strlit("decision_requested");
}


/// A list of names holds a name.
proof fn lemma_listed(names: Seq<Seq<char>>)
    ensures
        forall|k: int| 0 <= k < names.len() ==> names.contains(#[trigger] names[k]),
{
}

/// A question is asked if and only if its project is registered with an
/// object. It adds one open decision behind all others; the project then needs
/// a decision, and nothing else of it changes, nor any other project.
pub proof fn law_question_is_asked(
    registry: Members,
    decisions: Seq<JsonV>,
    asked: QuestionV,
)
    ensures
        ({
            let outcome = ledger::ask_outcome(registry, decisions, asked);
            let known = registry.contains_key(asked.project);
            &&& !known ==> outcome == Err::<Change, FaultV>(
                fault::about(FaultKind::Unregistered, asked.project),
            )
            &&& known && !(registry[asked.project] is Object) ==> outcome == Err::<Change, FaultV>(
                fault::plain(FaultKind::NotAnObject),
            )
            &&& known && registry[asked.project] is Object ==> {
                let after = outcome->Ok_0;
                let record = after.list.last();
                let entry = after.registry[asked.project];
                &&& outcome is Ok
                &&& after.list.len() == decisions.len() + 1
                &&& decisions.is_prefix_of(after.list)
                &&& record.get("id"@) == Some(JsonV::Text(asked.id))
                &&& record.get("project"@) == Some(JsonV::Text(asked.project))
                &&& record.get("state"@) == Some(JsonV::Text("open"@))
                &&& record.get("question"@) == Some(JsonV::Text(asked.question))
                &&& is_text_list(record.at("options"@), asked.options)
                &&& record.get("created_at"@) == Some(JsonV::Text(asked.created))
                &&& record.get("resolved_at"@) == Some(JsonV::Null)
                &&& record.get("resolution"@) == Some(JsonV::Null)
                &&& after.registry.contains_key(asked.project)
                &&& claim_laws::same_besides(registry, after.registry, asked.project)
                &&& claim_laws::same_but(
                    registry[asked.project],
                    entry,
                    seq!["status"@, "note"@, "updated_at"@],
                )
                &&& entry.get("status"@) == Some(JsonV::Text("need_decision"@))
                &&& entry.get("note"@) == Some(JsonV::Text(asked.question))
                &&& entry.get("updated_at"@) == Some(JsonV::Text(asked.created))
            }
        }),
{
    lemma_words();
    let names = seq!["status"@, "note"@, "updated_at"@];
    lemma_listed(names);
    assert(names[0] == "status"@ && names[1] == "note"@ && names[2] == "updated_at"@);
}

/// An array of these texts.
pub open spec fn is_text_list(value: JsonV, texts: Seq<Seq<char>>) -> bool {
    &&& value is Array
    &&& value.items().len() == texts.len()
    &&& forall|k: int|
        0 <= k < texts.len() ==> #[trigger] value.items()[k] == JsonV::Text(texts[k])
}

/// A question is told to the inbox, with its options.
pub proof fn law_question_is_told(
    registry: Members,
    decisions: Seq<JsonV>,
    asked: QuestionV,
)
    requires
        ledger::ask_outcome(registry, decisions, asked) is Ok,
    ensures
        ({
            let notice = ledger::ask_outcome(registry, decisions, asked)->Ok_0.notice;
            &&& notice.get("ts"@) == Some(JsonV::Text(asked.created))
            &&& notice.get("type"@) == Some(JsonV::Text("decision_requested"@))
            &&& notice.get("project"@) == Some(JsonV::Text(asked.project))
            &&& notice.get("status"@) == Some(JsonV::Text("need_decision"@))
            &&& notice.get("summary"@) == Some(JsonV::Text(asked.question))
            &&& notice.get("decision_id"@) == Some(JsonV::Text(asked.id))
            &&& is_text_list(notice.at("options"@), asked.options)
        }),
{
    lemma_words();
}

/// The first decision with an identifier.
pub open spec fn is_decision(decisions: Seq<JsonV>, id: Seq<char>, i: int) -> bool {
    &&& 0 <= i < decisions.len()
    &&& decisions[i].string("id"@) == id
    &&& forall|k: int| 0 <= k < i ==> (#[trigger] decisions[k]).string("id"@) != id
}

/// The first open decision of a project.
pub open spec fn is_next(decisions: Seq<JsonV>, project: Seq<char>, i: int) -> bool {
    &&& 0 <= i < decisions.len()
    &&& decisions[i].string("state"@) == "open"@
    &&& decisions[i].string("project"@) == project
    &&& forall|k: int|
        0 <= k < i ==> !((#[trigger] decisions[k]).string("state"@) == "open"@
            && decisions[k].string("project"@) == project)
}

proof fn lemma_decision(decisions: Seq<JsonV>, id: Seq<char>, i: int)
    ensures
        is_decision(decisions, id, i) <==> records::first_where(
            decisions,
            ledger::decision_named(id),
        ) == Some(i),
        (forall|k: int| 0 <= k < decisions.len() ==> (#[trigger] decisions[k]).string("id"@) != id)
            <==> records::first_where(decisions, ledger::decision_named(id)) is None,
{
    let wanted = ledger::decision_named(id);
    records::lemma_first_where(decisions, wanted);
    if is_decision(decisions, id, i) {
        assert forall|k: int| 0 <= k < i implies !wanted(#[trigger] decisions[k]) by {}
        records::lemma_first_where_is(decisions, wanted, i);
    }
    match records::first_where(decisions, wanted) {
        Some(n) => {
            assert forall|k: int| 0 <= k < n implies (#[trigger] decisions[k]).string("id"@)
                != id by {
                assert(!wanted(decisions[k]));
            }
            assert(decisions[n].string("id"@) == id);
        },
        None => {
            assert forall|k: int| 0 <= k < decisions.len() implies (#[trigger] decisions[k]).string(
                "id"@,
            ) != id by {
                assert(!wanted(decisions[k]));
            }
        },
    }
}

proof fn lemma_next(decisions: Seq<JsonV>, project: Seq<char>, i: int)
    ensures
        is_next(decisions, project, i) <==> records::first_where(
            decisions,
            records::open_ones(Some(project)),
        ) == Some(i),
        claim_laws::is_awaited(decisions, project) <==> records::first_where(
            decisions,
            records::open_ones(Some(project)),
        ) is Some,
{
    let wanted = records::open_ones(Some(project));
    records::lemma_first_where(decisions, wanted);
    if is_next(decisions, project, i) {
        assert forall|k: int| 0 <= k < i implies !wanted(#[trigger] decisions[k]) by {}
        records::lemma_first_where_is(decisions, wanted, i);
    }
    if claim_laws::is_awaited(decisions, project) {
        let k = choose|k: int|
            0 <= k < decisions.len() && (#[trigger] decisions[k]).string("state"@) == "open"@
                && decisions[k].string("project"@) == project;
        assert(wanted(decisions[k]));
    }
    match records::first_where(decisions, wanted) {
        Some(n) => {
            assert(decisions[n].string("state"@) == "open"@);
            assert forall|k: int| 0 <= k < n implies !((#[trigger] decisions[k]).string("state"@)
                == "open"@ && decisions[k].string("project"@) == project) by {
                assert(!wanted(decisions[k]));
            }
        },
        None => {},
    }
}

/// An answer is taken if and only if the decision is there, is open, and its
/// project is registered with an object; each refusal says what is wrong.
pub proof fn law_answer_is_owed(
    registry: Members,
    decisions: Seq<JsonV>,
    id: Seq<char>,
    answer: Seq<char>,
    now: Seq<char>,
    i: int,
)
    ensures
        ({
            let outcome = ledger::resolve_outcome(registry, decisions, id, answer, now);
            let found = is_decision(decisions, id, i);
            let open = decisions[i].get("state"@) == Some(JsonV::Text("open"@));
            let project = decisions[i].string("project"@);
            &&& (forall|k: int|
                0 <= k < decisions.len() ==> (#[trigger] decisions[k]).string("id"@) != id)
                ==> outcome == Err::<Change, FaultV>(fault::about(FaultKind::UnknownDecision, id))
            &&& found && !open ==> outcome == Err::<Change, FaultV>(
                fault::about(FaultKind::AlreadyResolved, id),
            )
            &&& found && open && !registry.contains_key(project) ==> outcome == Err::<
                Change,
                FaultV,
            >(fault::about(FaultKind::Unregistered, project))
            &&& found && open && registry.contains_key(project) && !(registry[project] is Object)
                ==> outcome == Err::<Change, FaultV>(fault::plain(FaultKind::NotAnObject))
            &&& found && open && registry.contains_key(project) && registry[project] is Object
                ==> outcome is Ok
        }),
{
    lemma_words();
    lemma_decision(decisions, id, i);
}

/// An answer resolves its decision with the answer and the time, and touches
/// no other. The project then needs the next of its decisions that is open, in
/// the words of its question; where none is, it is back at what it has
/// reported. Nothing else of it changes, nor any other project.
pub proof fn law_answer_resolves_its_decision(
    registry: Members,
    decisions: Seq<JsonV>,
    id: Seq<char>,
    answer: Seq<char>,
    now: Seq<char>,
    i: int,
    next: int,
)
    requires
        is_decision(decisions, id, i),
        ledger::resolve_outcome(registry, decisions, id, answer, now) is Ok,
    ensures
        ({
            let after = ledger::resolve_outcome(registry, decisions, id, answer, now)->Ok_0;
            let project = decisions[i].string("project"@);
            let before = registry[project];
            let entry = after.registry[project];
            &&& after.list.len() == decisions.len()
            &&& forall|k: int|
                0 <= k < decisions.len() && k != i ==> #[trigger] after.list[k] == decisions[k]
            &&& claim_laws::same_but(
                decisions[i],
                after.list[i],
                seq!["state"@, "resolution"@, "resolved_at"@],
            )
            &&& after.list[i].get("state"@) == Some(JsonV::Text("resolved"@))
            &&& after.list[i].get("resolution"@) == Some(JsonV::Text(answer))
            &&& after.list[i].get("resolved_at"@) == Some(JsonV::Text(now))
            &&& after.registry.contains_key(project)
            &&& claim_laws::same_besides(registry, after.registry, project)
            &&& claim_laws::same_but(before, entry, seq!["status"@, "note"@, "updated_at"@])
            &&& entry.get("updated_at"@) == Some(JsonV::Text(now))
            &&& is_next(after.list, project, next) ==> entry.get("status"@) == Some(
                JsonV::Text("need_decision"@),
            ) && entry.get("note"@) == Some(JsonV::Text(decisions[next].string("question"@)))
            &&& !claim_laws::is_awaited(after.list, project) ==> entry.get("status"@) == Some(
                match before.get("reported_status"@) {
                    Some(JsonV::Text(status)) => JsonV::Text(status),
                    _ => JsonV::Text("idle"@),
                },
            ) && entry.get("note"@) == Some(JsonV::Text("已拍板："@ + answer))
        }),
{
    lemma_words();
    lemma_decision(decisions, id, i);
    let after = ledger::resolve_outcome(registry, decisions, id, answer, now)->Ok_0;
    let project = decisions[i].string("project"@);
    lemma_next(after.list, project, next);
    assert("open"@.len() > 0);
    assert(decisions[i].string("state"@).len() > 0);
    let names = seq!["state"@, "resolution"@, "resolved_at"@];
    lemma_listed(names);
    assert(names[0] == "state"@ && names[1] == "resolution"@ && names[2] == "resolved_at"@);
    let others = seq!["status"@, "note"@, "updated_at"@];
    lemma_listed(others);
    assert(others[0] == "status"@ && others[1] == "note"@ && others[2] == "updated_at"@);
    if is_next(after.list, project, next) {
        assert(next != i);
        assert(after.list[next] == decisions[next]);
    }
}

/// An answer is told to the inbox, with the status that the project is at.
pub proof fn law_answer_is_told(
    registry: Members,
    decisions: Seq<JsonV>,
    id: Seq<char>,
    answer: Seq<char>,
    now: Seq<char>,
    i: int,
)
    requires
        is_decision(decisions, id, i),
        ledger::resolve_outcome(registry, decisions, id, answer, now) is Ok,
    ensures
        ({
            let after = ledger::resolve_outcome(registry, decisions, id, answer, now)->Ok_0;
            let project = decisions[i].string("project"@);
            let notice = after.notice;
            &&& notice.get("ts"@) == Some(JsonV::Text(now))
            &&& notice.get("type"@) == Some(JsonV::Text("decision_resolved"@))
            &&& notice.get("project"@) == Some(JsonV::Text(project))
            &&& notice.get("status"@) == after.registry[project].get("status"@)
            &&& notice.get("summary"@) == Some(JsonV::Text(id + " → "@ + answer))
            &&& notice.get("decision_id"@) == Some(JsonV::Text(id))
        }),
{
    lemma_words();
    lemma_decision(decisions, id, i);
}

/// A status is set if and only if the project is registered with an object. It
/// is what the project has reported, and shown unless a decision is open; the
/// note changes only where one is given. Nothing else changes.
pub proof fn law_status_is_set(
    registry: Members,
    decisions: Seq<JsonV>,
    project: Seq<char>,
    status: Seq<char>,
    note: Seq<char>,
    now: Seq<char>,
)
    ensures
        ({
            let outcome = ledger::set_status_outcome(
                registry,
                decisions,
                project,
                status,
                note,
                now,
            );
            let known = registry.contains_key(project);
            &&& !known ==> outcome == Err::<Members, FaultV>(
                fault::about(FaultKind::Unregistered, project),
            )
            &&& known && !(registry[project] is Object) ==> outcome == Err::<Members, FaultV>(
                fault::plain(FaultKind::NotAnObject),
            )
            &&& known && registry[project] is Object ==> {
                let after = outcome->Ok_0;
                let (before, entry) = (registry[project], after[project]);
                &&& outcome is Ok
                &&& after.contains_key(project)
                &&& claim_laws::same_besides(registry, after, project)
                &&& claim_laws::same_but(
                    before,
                    entry,
                    seq!["reported_status"@, "status"@, "note"@, "updated_at"@],
                )
                &&& entry.get("reported_status"@) == Some(JsonV::Text(status))
                &&& entry.get("status"@) == Some(
                    JsonV::Text(
                        if claim_laws::is_awaited(decisions, project) {
                            "need_decision"@
                        } else {
                            status
                        },
                    ),
                )
                &&& note.len() > 0 ==> entry.get("note"@) == Some(JsonV::Text(note))
                &&& note.len() == 0 ==> entry.get("note"@) == before.get("note"@)
                &&& entry.get("updated_at"@) == Some(JsonV::Text(now))
            }
        }),
{
    lemma_words();
    claim_laws::lemma_awaited(decisions, project);
    let names = seq!["reported_status"@, "status"@, "note"@, "updated_at"@];
    lemma_listed(names);
    assert(names[0] == "reported_status"@ && names[1] == "status"@);
    assert(names[2] == "note"@ && names[3] == "updated_at"@);
}

/// Registering a project is refused only where its directory is, or its entry
/// is no object. The entry then says where the project runs and who commands
/// it; a new one is idle, without a note and without a claim, and of one that
/// was there everything else stays. No other project changes.
pub proof fn law_registration_is_recorded(
    registry: Members,
    project: Seq<char>,
    tab: Seq<char>,
    commander: Seq<char>,
    cwd: Result<Seq<char>, FaultV>,
    now: Seq<char>,
    name: Seq<char>,
)
    ensures
        ({
            let outcome = ledger::register_outcome(registry, project, tab, commander, cwd, now);
            let known = registry.contains_key(project);
            let odd = known && !(registry[project] is Object);
            let before = if known {
                registry[project]
            } else {
                JsonV::Object(Map::empty())
            };
            &&& odd ==> outcome == Err::<Members, FaultV>(fault::plain(FaultKind::NotAnObject))
            &&& !odd && cwd is Err ==> outcome == Err::<Members, FaultV>(cwd->Err_0)
            &&& !odd && cwd is Ok ==> {
                let after = outcome->Ok_0;
                let entry = after[project];
                &&& outcome is Ok
                &&& after.contains_key(project)
                &&& claim_laws::same_besides(registry, after, project)
                &&& entry.get("tab_id"@) == Some(JsonV::Text(tab))
                &&& entry.get("commander"@) == Some(JsonV::Text(commander))
                &&& entry.get("cwd"@) == Some(JsonV::Text(cwd->Ok_0))
                &&& entry.get("updated_at"@) == Some(JsonV::Text(now))
                &&& entry.get("status"@) == (if before.get("status"@) is Some {
                    before.get("status"@)
                } else {
                    Some(JsonV::Text("idle"@))
                })
                &&& entry.get("reported_status"@) == (if before.get("reported_status"@) is Some {
                    before.get("reported_status"@)
                } else {
                    Some(JsonV::Text("idle"@))
                })
                &&& entry.get("note"@) == (if before.get("note"@) is Some {
                    before.get("note"@)
                } else {
                    Some(JsonV::Text(Seq::empty()))
                })
                &&& entry.get("claim_id"@) == (if before.get("claim_id"@) is Some {
                    before.get("claim_id"@)
                } else {
                    Some(JsonV::Null)
                })
                &&& entry.get("claim_state"@) == (if before.get("claim_state"@) is Some {
                    before.get("claim_state"@)
                } else {
                    Some(JsonV::Null)
                })
                &&& name != "tab_id"@ && name != "commander"@ && name != "cwd"@ && name
                    != "updated_at"@ && before.get(name) is Some ==> entry.get(name)
                    == before.get(name)
            }
        }),
{
    lemma_words();
    reveal_strlit("");
    assert(""@ =~= Seq::<char>::empty());
}

/// A project is taken out if and only if it is registered, and no other one is
/// touched.
pub proof fn law_removal_is_of_one(registry: Members, project: Seq<char>)
    ensures
        ({
            let outcome = ledger::unregister_outcome(registry, project);
            &&& !registry.contains_key(project) ==> outcome == Err::<Members, FaultV>(
                fault::about(FaultKind::Unregistered, project),
            )
            &&& registry.contains_key(project) ==> outcome is Ok
                && !outcome->Ok_0.contains_key(project) && claim_laws::same_besides(
                registry,
                outcome->Ok_0,
                project,
            )
        }),
{
}

} // verus!
