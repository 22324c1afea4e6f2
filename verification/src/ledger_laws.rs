//! What holds of the trusted state: what is reported, verified and accepted
//! are three things, and a decision is asked for and answered by itself.
use vstd::prelude::*;
use crate::fault::FaultKind;
use crate::fault;
use crate::json::{JsonV, Members};
use crate::ledger::{AcceptanceV, CheckV, ClaimV, ExecutionV, QuestionV};
use crate::ledger;
use crate::records;

verus! {

/// The names of the members of claims and entries differ.
proof fn lemma_member_names()
    ensures
        "state"@ != "id"@,
        "state"@ != "project"@,
        "state"@ != "status"@,
        "state"@ != "summary"@,
        "state"@ != "confidence"@,
        "state"@ != "evidence"@,
        "state"@ != "created_at"@,
        "state"@ != "verified_at"@,
        "state"@ != "accepted_at"@,
        "state"@ != "accepted_by"@,
        "state"@ != "acceptance_note"@,
        "state"@ != "verification_failed_at"@,
        "state"@ != "question"@,
        "state"@ != "options"@,
        "state"@ != "source"@,
        "state"@ != "resolved_at"@,
        "state"@ != "resolution"@,
        "project"@ != "id"@,
        "project"@ != "status"@,
        "project"@ != "summary"@,
        "project"@ != "confidence"@,
        "project"@ != "evidence"@,
        "project"@ != "created_at"@,
        "project"@ != "verified_at"@,
        "project"@ != "accepted_at"@,
        "project"@ != "accepted_by"@,
        "project"@ != "acceptance_note"@,
        "project"@ != "verification_failed_at"@,
        "project"@ != "question"@,
        "project"@ != "options"@,
        "project"@ != "source"@,
        "project"@ != "resolved_at"@,
        "project"@ != "resolution"@,
        "id"@ != "status"@,
        "id"@ != "summary"@,
        "id"@ != "confidence"@,
        "id"@ != "evidence"@,
        "id"@ != "created_at"@,
        "id"@ != "verified_at"@,
        "id"@ != "accepted_at"@,
        "id"@ != "accepted_by"@,
        "id"@ != "acceptance_note"@,
        "id"@ != "verification_failed_at"@,
        "status"@ != "summary"@,
        "status"@ != "confidence"@,
        "status"@ != "evidence"@,
        "status"@ != "created_at"@,
        "status"@ != "verified_at"@,
        "status"@ != "accepted_at"@,
        "status"@ != "accepted_by"@,
        "status"@ != "acceptance_note"@,
        "status"@ != "verification_failed_at"@,
        "evidence"@ != "created_at"@,
        "evidence"@ != "verified_at"@,
        "evidence"@ != "accepted_at"@,
        "evidence"@ != "accepted_by"@,
        "evidence"@ != "acceptance_note"@,
        "evidence"@ != "verification_failed_at"@,
        "reported_status"@ != "status"@,
        "reported_status"@ != "note"@,
        "reported_status"@ != "updated_at"@,
        "reported_status"@ != "claim_id"@,
        "reported_status"@ != "claim_state"@,
        "reported_status"@ != "tab_id"@,
        "reported_status"@ != "commander"@,
        "reported_status"@ != "cwd"@,
        "status"@ != "note"@,
        "status"@ != "updated_at"@,
        "status"@ != "claim_id"@,
        "status"@ != "claim_state"@,
        "status"@ != "tab_id"@,
        "status"@ != "commander"@,
        "status"@ != "cwd"@,
        "claim_id"@ != "claim_state"@,
        "claim_id"@ != "updated_at"@,
        "claim_id"@ != "note"@,
        "claim_id"@ != "tab_id"@,
        "claim_id"@ != "commander"@,
        "claim_id"@ != "cwd"@,
        "claim_state"@ != "updated_at"@,
        "claim_state"@ != "note"@,
        "claim_state"@ != "tab_id"@,
        "claim_state"@ != "commander"@,
        "claim_state"@ != "cwd"@,
        "note"@ != "updated_at"@,
        "note"@ != "tab_id"@,
        "note"@ != "commander"@,
        "note"@ != "cwd"@,
{
    reveal_strlit("id");
    reveal_strlit("cwd");
    reveal_strlit("note");
    reveal_strlit("state");
    reveal_strlit("status");
    reveal_strlit("tab_id");
    reveal_strlit("source");
    reveal_strlit("project");
    reveal_strlit("summary");
    reveal_strlit("options");
    reveal_strlit("evidence");
    reveal_strlit("claim_id");
    reveal_strlit("question");
    reveal_strlit("commander");
    reveal_strlit("confidence");
    reveal_strlit("created_at");
    reveal_strlit("updated_at");
    reveal_strlit("resolution");
    reveal_strlit("verified_at");
    reveal_strlit("accepted_at");
    reveal_strlit("accepted_by");
    reveal_strlit("resolved_at");
    reveal_strlit("claim_state");
    reveal_strlit("reported_status");
    reveal_strlit("acceptance_note");
    reveal_strlit("verification_failed_at");
    assert("id"@.len() == 2 && "cwd"@.len() == 3 && "note"@.len() == 4 && "state"@.len() == 5);
    assert("status"@.len() == 6 && "tab_id"@.len() == 6 && "source"@.len() == 6);
    assert("project"@.len() == 7 && "summary"@.len() == 7 && "options"@.len() == 7);
    assert("evidence"@.len() == 8 && "claim_id"@.len() == 8 && "question"@.len() == 8);
    assert("commander"@.len() == 9 && "confidence"@.len() == 10 && "created_at"@.len() == 10);
    assert("updated_at"@.len() == 10 && "resolution"@.len() == 10 && "verified_at"@.len() == 11);
    assert("accepted_at"@.len() == 11 && "accepted_by"@.len() == 11 && "resolved_at"@.len() == 11);
    assert("claim_state"@.len() == 11 && "reported_status"@.len() == 15);
    assert("acceptance_note"@.len() == 15 && "verification_failed_at"@.len() == 22);
    assert("status"@[0] == 's' && "tab_id"@[0] == 't' && "status"@[1] == 't' && "source"@[1] == 'o');
    assert("project"@[0] == 'p' && "summary"@[0] == 's' && "options"@[0] == 'o');
    assert("evidence"@[0] == 'e' && "claim_id"@[0] == 'c' && "question"@[0] == 'q');
}

/// The states of a claim differ.
proof fn lemma_claim_states()
    ensures
        "reported"@ != "verified"@,
        "reported"@ != "accepted"@,
        "verified"@ != "accepted"@,
        "open"@ != "resolved"@,
{
    reveal_strlit("reported");
    reveal_strlit("verified");
    reveal_strlit("accepted");
    reveal_strlit("open");
    reveal_strlit("resolved");
    assert("reported"@[0] == 'r' && "verified"@[0] == 'v' && "accepted"@[0] == 'a');
    assert("open"@.len() == 4 && "resolved"@.len() == 8);
}

/// A new claim is reported, whatever it claims, and neither verified nor
/// accepted; the entry of its project points to it. All that was claimed
/// before stays, and so do all other projects.
pub proof fn law_new_claim_is_only_reported(
    registry: Members,
    decisions: Seq<JsonV>,
    claims: Seq<JsonV>,
    claim: ClaimV,
    other: Seq<char>,
)
    requires
        ledger::report_outcome(registry, decisions, claims, claim) is Ok,
        other != claim.project,
    ensures
        ({
            let after = ledger::report_outcome(registry, decisions, claims, claim)->Ok_0;
            let entry = after.registry[claim.project];
            &&& after.list.len() == claims.len() + 1
            &&& claims.is_prefix_of(after.list)
            &&& after.list.last().string("state"@) == "reported"@
            &&& after.list.last().string("project"@) == claim.project
            &&& after.list.last().string("id"@) == claim.id
            &&& after.list.last().string("status"@) == claim.status
            &&& after.list.last().at("verified_at"@) is Null
            &&& after.list.last().at("accepted_at"@) is Null
            &&& entry.string("claim_id"@) == claim.id
            &&& entry.string("claim_state"@) == "reported"@
            &&& entry.string("reported_status"@) == claim.status
            &&& after.registry.contains_key(other) == registry.contains_key(other)
            &&& registry.contains_key(other) ==> after.registry[other] == registry[other]
        }),
{
    lemma_member_names();
    reveal_strlit("verified_at");
    reveal_strlit("accepted_at");
    reveal_strlit("accepted_by");
    reveal_strlit("acceptance_note");
    assert("verified_at"@[0] == 'v' && "accepted_at"@[0] == 'a');
    assert("accepted_at"@[9] == 'a' && "accepted_by"@[9] == 'b');
    assert("acceptance_note"@.len() == 15);
}

/// An open decision overrides the status of its project, but what the project
/// has reported is kept: under an open decision a claim changes what is
/// reported and not what is shown.
pub proof fn law_open_decision_overrides_reports(
    registry: Members,
    decisions: Seq<JsonV>,
    claims: Seq<JsonV>,
    claim: ClaimV,
)
    requires
        ledger::report_outcome(registry, decisions, claims, claim) is Ok,
        records::is_reported_status(claim.status),
    ensures
        ({
            let after = ledger::report_outcome(registry, decisions, claims, claim)->Ok_0;
            let entry = after.registry[claim.project];
            &&& records::last_reported(entry) == claim.status
            &&& records::has_open(decisions, claim.project) ==> records::effective(
                entry,
                decisions,
                claim.project,
            ) == "need_decision"@ && entry.string("status"@) == "need_decision"@
            &&& !records::has_open(decisions, claim.project) ==> records::effective(
                entry,
                decisions,
                claim.project,
            ) == claim.status && entry.string("status"@) == claim.status
        }),
{
    lemma_member_names();
}

/// Setting a status touches no other project, and shows what is set unless a
/// decision is open: `blocked` is a status like the others and asks for none.
pub proof fn law_status_is_no_decision(
    registry: Members,
    decisions: Seq<JsonV>,
    project: Seq<char>,
    status: Seq<char>,
    note: Seq<char>,
    now: Seq<char>,
    other: Seq<char>,
)
    requires
        ledger::set_status_outcome(registry, decisions, project, status, note, now) is Ok,
        records::is_reported_status(status),
        other != project,
    ensures
        ({
            let after = ledger::set_status_outcome(
                registry,
                decisions,
                project,
                status,
                note,
                now,
            )->Ok_0;
            let entry = after[project];
            &&& records::last_reported(entry) == status
            &&& records::effective(entry, decisions, project) == ledger::shown_status(
                decisions,
                project,
                status,
            )
            &&& entry.string("status"@) == ledger::shown_status(decisions, project, status)
            &&& after.contains_key(other) == registry.contains_key(other)
            &&& registry.contains_key(other) ==> after[other] == registry[other]
        }),
{
    lemma_member_names();
}

/// A question opens a decision of its project, which then needs a decision;
/// what the project has reported is kept, and every decision there was.
pub proof fn law_question_opens_a_decision(
    registry: Members,
    decisions: Seq<JsonV>,
    asked: QuestionV,
)
    requires
        ledger::ask_outcome(registry, decisions, asked) is Ok,
    ensures
        ({
            let after = ledger::ask_outcome(registry, decisions, asked)->Ok_0;
            let before = registry[asked.project];
            let entry = after.registry[asked.project];
            &&& decisions.is_prefix_of(after.list)
            &&& after.list.len() == decisions.len() + 1
            &&& records::is_open(after.list.last(), Some(asked.project))
            &&& records::effective(entry, after.list, asked.project) == "need_decision"@
            &&& entry.get("reported_status"@) == before.get("reported_status"@)
        }),
{
    lemma_member_names();
    let after = ledger::ask_outcome(registry, decisions, asked)->Ok_0;
    assert(after.list[decisions.len() as int] == ledger::decision_record(asked));
    assert(records::is_open(after.list[decisions.len() as int], Some(asked.project)));
}

/// The decision that is answered is resolved, and no other is touched.
proof fn lemma_answered(members: Members, answer: Seq<char>, now: Seq<char>)
    ensures
        ledger::resolved_decision(members, answer, now).string("state"@) == "resolved"@,
        ledger::resolved_decision(members, answer, now).string("project"@) == JsonV::Object(
            members,
        ).string("project"@),
{
    lemma_member_names();
}

/// An answer resolves its decision and no other. While another decision of the
/// project is open the project needs it; the answer to the last one restores
/// what the project has reported.
pub proof fn law_last_answer_restores_the_report(
    registry: Members,
    decisions: Seq<JsonV>,
    id: Seq<char>,
    answer: Seq<char>,
    now: Seq<char>,
)
    requires
        ledger::resolve_outcome(registry, decisions, id, answer, now) is Ok,
    ensures
        ({
            let after = ledger::resolve_outcome(registry, decisions, id, answer, now)->Ok_0;
            let i = records::first_where(decisions, ledger::decision_named(id))->0;
            let project = decisions[i].string("project"@);
            let before = registry[project];
            let entry = after.registry[project];
            &&& 0 <= i < decisions.len()
            &&& after.list.len() == decisions.len()
            &&& after.list[i].string("state"@) == "resolved"@
            &&& forall|k: int|
                0 <= k < decisions.len() && k != i ==> #[trigger] after.list[k] == decisions[k]
            &&& entry.get("reported_status"@) == before.get("reported_status"@)
            &&& records::has_open(after.list, project) ==> entry.string("status"@)
                == "need_decision"@ && records::effective(entry, after.list, project)
                == "need_decision"@
            &&& !records::has_open(after.list, project) && before.optional_string(
                "reported_status"@,
            ) is Some ==> entry.string("status"@) == before.string("reported_status"@)
                && records::effective(entry, after.list, project) == records::last_reported(before)
        }),
{
    lemma_member_names();
    lemma_claim_states();
    let after = ledger::resolve_outcome(registry, decisions, id, answer, now)->Ok_0;
    records::lemma_first_where(decisions, ledger::decision_named(id));
    let i = records::first_where(decisions, ledger::decision_named(id))->0;
    let project = decisions[i].string("project"@);
    lemma_answered(decisions[i]->Object_0, answer, now);
    let wanted = records::open_ones(Some(project));
    records::lemma_first_where(after.list, wanted);
    match records::first_where(after.list, wanted) {
        Some(k) => {
            assert(records::is_open(after.list[k], Some(project)));
        },
        None => {
            assert forall|k: int| 0 <= k < after.list.len() implies !records::is_open(
                #[trigger] after.list[k],
                Some(project),
            ) by {
                assert(!wanted(after.list[k]));
            }
        },
    }
}

/// A verification adds its evidence behind all that was there, and then the
/// last verification counts: a claim that passed is verified, one that failed
/// is reported again, and what was accepted stays accepted. No other claim is
/// touched.
pub proof fn law_last_verification_counts(
    registry: Members,
    claims: Seq<JsonV>,
    check: CheckV,
    run: ExecutionV,
    token: Seq<char>,
)
    requires
        ledger::verify_outcome(registry, claims, check, run, token) is Ok,
    ensures
        ({
            let after = ledger::verify_outcome(registry, claims, check, run, token)->Ok_0;
            let i = records::claim_index(claims, check.project, Some(check.claim_id))->0;
            let before = claims[i];
            let claim = after.list[i];
            &&& 0 <= i < claims.len()
            &&& after.list.len() == claims.len()
            &&& forall|k: int|
                0 <= k < claims.len() && k != i ==> #[trigger] after.list[k] == claims[k]
            &&& claim.at("evidence"@).items() == before.at("evidence"@).items().push(
                ledger::check_evidence(check, run, token),
            )
            &&& before.string("state"@) == "accepted"@ ==> claim.string("state"@) == "accepted"@
            &&& before.string("state"@) != "accepted"@ && run.exit_code == 0 ==> claim.string(
                "state"@,
            ) == "verified"@
            &&& before.string("state"@) != "accepted"@ && run.exit_code != 0 ==> claim.string(
                "state"@,
            ) == "reported"@
            &&& claim.string("status"@) == before.string("status"@)
            &&& claim.string("project"@) == before.string("project"@)
            &&& claim.string("id"@) == before.string("id"@)
        }),
{
    lemma_member_names();
    reveal_strlit("accepted");
    records::lemma_first_where(
        claims,
        records::claim_named(check.project, check.claim_id),
    );
}

/// A claim is accepted if and only if its project is registered, the claim is
/// there and claims completion, and it is verified or the user forces it.
pub proof fn law_acceptance_needs_verification(
    registry: Members,
    claims: Seq<JsonV>,
    given: AcceptanceV,
)
    ensures
        ({
            let index = records::claim_index(claims, given.project, given.claim_id);
            ledger::accept_outcome(registry, claims, given) is Ok <==> registry.contains_key(
                given.project,
            ) && index is Some && claims[index->0].string("status"@) == "done"@ && (
            claims[index->0].string("state"@) == "verified"@ || given.force)
        }),
{
}

/// What was accepted is so, with the time, the operator and the note; no other
/// claim is touched.
pub proof fn law_acceptance_is_recorded(
    registry: Members,
    claims: Seq<JsonV>,
    given: AcceptanceV,
)
    requires
        ledger::accept_outcome(registry, claims, given) is Ok,
    ensures
        ({
            let after = ledger::accept_outcome(registry, claims, given)->Ok_0.0;
            let i = records::claim_index(claims, given.project, given.claim_id)->0;
            let claim = after.list[i];
            &&& 0 <= i < claims.len()
            &&& after.list.len() == claims.len()
            &&& forall|k: int|
                0 <= k < claims.len() && k != i ==> #[trigger] after.list[k] == claims[k]
            &&& claim.string("state"@) == "accepted"@
            &&& claim.string("accepted_at"@) == given.now
            &&& claim.string("accepted_by"@) == given.operator
            &&& claim.string("acceptance_note"@) == given.note
            &&& claim.at("evidence"@) == claims[i].at("evidence"@)
        }),
{
    lemma_member_names();
    reveal_strlit("accepted_at");
    reveal_strlit("accepted_by");
    reveal_strlit("acceptance_note");
    assert("accepted_at"@[9] == 'a' && "accepted_by"@[9] == 'b');
    assert("acceptance_note"@.len() == 15);
    reveal_strlit("done");
    let after = ledger::accept_outcome(registry, claims, given)->Ok_0.0;
    let i = records::claim_index(claims, given.project, given.claim_id)->0;
    match given.claim_id {
        Some(id) => records::lemma_first_where(claims, records::claim_named(given.project, id)),
        None => records::lemma_last_where(claims, records::claim_of(given.project)),
    }
    assert(claims[i].string("status"@).len() > 0);
    assert(claims[i] is Object);
    assert(given.note.len() == 0 ==> given.note =~= Seq::<char>::empty());
}

/// Reported, verified and accepted are three stages: a claim of completion
/// that was just made is refused without force; once a verification of it has
/// passed, it is accepted.
pub proof fn law_three_stages(
    registry: Members,
    decisions: Seq<JsonV>,
    claims: Seq<JsonV>,
    claim: ClaimV,
    check: CheckV,
    run: ExecutionV,
    token: Seq<char>,
    given: AcceptanceV,
)
    requires
        ledger::report_outcome(registry, decisions, claims, claim) is Ok,
        claim.status == "done"@,
        check.project == claim.project,
        check.claim_id == claim.id,
        given.project == claim.project,
        given.claim_id == Some(claim.id),
        !given.force,
        run.exit_code == 0,
        records::first_where(claims, records::claim_named(claim.project, claim.id)) is None,
    ensures
        ({
            let reported = ledger::report_outcome(registry, decisions, claims, claim)->Ok_0;
            let verified = ledger::verify_outcome(
                reported.registry,
                reported.list,
                check,
                run,
                token,
            );
            &&& ledger::accept_outcome(reported.registry, reported.list, given) == Err::<
                (ledger::Change, Seq<char>),
                fault::FaultV,
            >(fault::plain(FaultKind::NotVerified))
            &&& verified is Ok
            &&& ledger::accept_outcome(verified->Ok_0.registry, verified->Ok_0.list, given) is Ok
            &&& ledger::accept_outcome(
                verified->Ok_0.registry,
                verified->Ok_0.list,
                given,
            )->Ok_0.0.registry[claim.project].string("claim_state"@) == "accepted"@
        }),
{
    lemma_member_names();
    lemma_claim_states();
    let reported = ledger::report_outcome(registry, decisions, claims, claim)->Ok_0;
    let wanted = records::claim_named(claim.project, claim.id);
    let at = claims.len() as int;
    let record = ledger::claim_record(claim);
    records::lemma_first_where(claims, wanted);
    assert(reported.list[at] == record);
    assert(record.string("project"@) == claim.project && record.string("id"@) == claim.id);
    assert(record.string("state"@) == "reported"@ && record.string("status"@) == "done"@);
    assert forall|k: int| 0 <= k < at implies !wanted(#[trigger] reported.list[k]) by {
        assert(reported.list[k] == claims[k]);
    }
    records::lemma_first_where_is(reported.list, wanted, at);
    assert(record->Object_0.contains_key("evidence"@));
    assert(record->Object_0["evidence"@] == JsonV::Array(claim.evidence));
    let verified = ledger::verify_outcome(reported.registry, reported.list, check, run, token);
    law_last_verification_counts(reported.registry, reported.list, check, run, token);
    let after = verified->Ok_0;
    assert forall|k: int| 0 <= k < at implies !wanted(#[trigger] after.list[k]) by {
        assert(after.list[k] == reported.list[k]);
        assert(!wanted(reported.list[k]));
    }
    records::lemma_first_where_is(after.list, wanted, at);
    let entry = reported.registry[claim.project];
    assert(entry.optional_string("claim_id"@) == Some(claim.id));
    assert(after.registry[claim.project].optional_string("claim_id"@) == Some(claim.id));
}

/// Registering a project again changes where it runs and who commands it, and
/// nothing of what it has reported and claimed.
pub proof fn law_registering_again_keeps_reports(
    registry: Members,
    project: Seq<char>,
    tab: Seq<char>,
    commander: Seq<char>,
    cwd: Result<Seq<char>, fault::FaultV>,
    now: Seq<char>,
    other: Seq<char>,
)
    requires
        ledger::register_outcome(registry, project, tab, commander, cwd, now) is Ok,
        other != project,
    ensures
        ({
            let after = ledger::register_outcome(
                registry,
                project,
                tab,
                commander,
                cwd,
                now,
            )->Ok_0;
            let entry = after[project];
            let before = registry[project];
            let kept = |name: Seq<char>| registry.contains_key(project) && before.get(name) is Some
                ==> entry.get(name) == before.get(name);
            &&& entry.string("commander"@) == commander
            &&& kept("status"@)
            &&& kept("reported_status"@)
            &&& kept("note"@)
            &&& kept("claim_id"@)
            &&& kept("claim_state"@)
            &&& after.contains_key(other) == registry.contains_key(other)
            &&& registry.contains_key(other) ==> after[other] == registry[other]
        }),
{
    lemma_member_names();
    reveal_strlit("commander");
    reveal_strlit("updated_at");
    reveal_strlit("cwd");
    assert("commander"@.len() == 9 && "updated_at"@.len() == 10 && "cwd"@.len() == 3);
}

/// A project that was taken out is no longer registered; all others are.
pub proof fn law_unregister_takes_out_one(registry: Members, project: Seq<char>, other: Seq<char>)
    requires
        registry.contains_key(project),
        other != project,
    ensures
        ({
            let after = ledger::unregister_outcome(registry, project)->Ok_0;
            &&& !after.contains_key(project)
            &&& after.contains_key(other) == registry.contains_key(other)
            &&& registry.contains_key(other) ==> after[other] == registry[other]
            &&& ledger::unregister_outcome(after, project) is Err
        }),
{
}

/// What a commander declares as evidence is a declaration: it comes from the
/// commander and is not verified. What a verification gives comes from the
/// coordinator, and is verified if and only if the command passed.
pub proof fn law_only_commands_verify(
    value: Seq<char>,
    declared: Seq<char>,
    now: Seq<char>,
    check: CheckV,
    run: ExecutionV,
    token: Seq<char>,
)
    ensures
        match ledger::evidence_outcome(value, declared, now) {
            Ok(evidence) => !evidence.flag("verified"@, true) && evidence.string("source"@)
                == "commander"@,
            Err(_) => true,
        },
        ledger::check_evidence(check, run, token).flag("verified"@, false) == (run.exit_code == 0),
        ledger::check_evidence(check, run, token).string("source"@) == "coordinator"@,
{
    reveal_strlit("id");
    reveal_strlit("kind");
    reveal_strlit("label");
    reveal_strlit("command");
    reveal_strlit("cwd");
    reveal_strlit("value");
    reveal_strlit("source");
    reveal_strlit("verified");
    reveal_strlit("exit_code");
    reveal_strlit("stdout_tail");
    reveal_strlit("stderr_tail");
    reveal_strlit("error");
    reveal_strlit("started_at");
    reveal_strlit("finished_at");
    reveal_strlit("duration_ms");
    reveal_strlit("created_at");
    assert("verified"@.len() == 8 && "source"@.len() == 6);
    assert("id"@.len() == 2 && "kind"@.len() == 4 && "label"@.len() == 5 && "cwd"@.len() == 3);
    assert("command"@.len() == 7 && "value"@.len() == 5 && "exit_code"@.len() == 9);
    assert("stdout_tail"@.len() == 11 && "stderr_tail"@.len() == 11 && "error"@.len() == 5);
    assert("started_at"@.len() == 10 && "finished_at"@.len() == 11 && "duration_ms"@.len() == 11);
    assert("created_at"@.len() == 10);
}

} // verus!
