//! What reporting, verifying and accepting are for: a claim holds what was
//! claimed, a verification says what a command has shown, and the entry of a
//! project follows the claim that it points to and no other.
use vstd::prelude::*;
use crate::fault::{FaultKind, FaultV};
use crate::fault;
use crate::json::{JsonV, Members};
use crate::ledger::{AcceptanceV, Change, CheckV, ClaimV, ExecutionV};
use crate::ledger;
use crate::records;
use crate::text;

verus! {

/// The words differ: in length, or in a letter.
proof fn lemma_words()
    ensures
        "id"@.len() == 2 && "id"@[0] == 'i',
        "ts"@.len() == 2 && "ts"@[0] == 't',
        "cwd"@.len() == 3,
        "done"@.len() == 4 && "done"@[0] == 'd',
        "kind"@.len() == 4 && "kind"@[0] == 'k',
        "note"@.len() == 4 && "note"@[0] == 'n',
        "open"@.len() == 4 && "open"@[0] == 'o',
        "type"@.len() == 4 && "type"@[0] == 't',
        "error"@.len() == 5 && "error"@[0] == 'e',
        "label"@.len() == 5 && "label"@[0] == 'l',
        "state"@.len() == 5 && "state"@[0] == 's',
        "value"@.len() == 5 && "value"@[0] == 'v',
        "source"@.len() == 6 && "source"@[1] == 'o',
        "status"@.len() == 6 && "status"@[1] == 't',
        "tab_id"@.len() == 6 && "tab_id"@[1] == 'a',
        "command"@.len() == 7 && "command"@[0] == 'c',
        "project"@.len() == 7 && "project"@[0] == 'p',
        "summary"@.len() == 7 && "summary"@[0] == 's',
        "unknown"@.len() == 7 && "unknown"@[0] == 'u',
        "accepted"@.len() == 8 && "accepted"@[0] == 'a',
        "claim_id"@.len() == 8 && "claim_id"@[0] == 'c',
        "evidence"@.len() == 8 && "evidence"@[0] == 'e',
        "reported"@.len() == 8 && "reported"@[0] == 'r',
        "verified"@.len() == 8 && "verified"@[0] == 'v',
        "commander"@.len() == 9 && "commander"@[0] == 'c',
        "exit_code"@.len() == 9 && "exit_code"@[0] == 'e',
        "confidence"@.len() == 10 && "confidence"@[1] == 'o',
        "created_at"@.len() == 10 && "created_at"@[1] == 'r',
        "started_at"@.len() == 10 && "started_at"@[1] == 't',
        "updated_at"@.len() == 10 && "updated_at"@[1] == 'p',
        "accepted_at"@.len() == 11 && "accepted_at"@[4] == 'p' && "accepted_at"@[9] == 'a',
        "accepted_by"@.len() == 11 && "accepted_by"@[4] == 'p' && "accepted_by"@[9] == 'b',
        "claim_state"@.len() == 11 && "claim_state"@[4] == 'm' && "claim_state"@[9] == 't',
        "coordinator"@.len() == 11 && "coordinator"@[4] == 'd' && "coordinator"@[9] == 'o',
        "duration_ms"@.len() == 11 && "duration_ms"@[4] == 't' && "duration_ms"@[9] == 'm',
        "evidence_id"@.len() == 11 && "evidence_id"@[4] == 'e' && "evidence_id"@[9] == 'i',
        "finished_at"@.len() == 11 && "finished_at"@[4] == 's' && "finished_at"@[9] == 'a',
        "stderr_tail"@.len() == 11 && "stderr_tail"@[4] == 'r' && "stderr_tail"@[9] == 'i',
        "stdout_tail"@.len() == 11 && "stdout_tail"@[4] == 'u' && "stdout_tail"@[9] == 'i',
        "verified_at"@.len() == 11 && "verified_at"@[4] == 'f' && "verified_at"@[9] == 'a',
        "need_decision"@.len() == 13,
        "claim_accepted"@.len() == 14 && "claim_accepted"@[0] == 'c',
        "evidence_count"@.len() == 14 && "evidence_count"@[0] == 'e',
        "status_claimed"@.len() == 14 && "status_claimed"@[0] == 's',
        "acceptance_note"@.len() == 15 && "acceptance_note"@[0] == 'a',
        "reported_status"@.len() == 15 && "reported_status"@[0] == 'r',
        "verification_failed"@.len() == 19 && "verification_failed"@[13] == 'f',
        "verification_passed"@.len() == 19 && "verification_passed"@[13] == 'p',
        "verification_failed_at"@.len() == 22,
{
    reveal_strlit("id");
    reveal_strlit("ts");
    reveal_strlit("cwd");
    reveal_strlit("done");
    reveal_strlit("kind");
    reveal_strlit("note");
    reveal_strlit("open");
    reveal_strlit("type");
    reveal_strlit("error");
    reveal_strlit("label");
    reveal_strlit("state");
    reveal_strlit("value");
    reveal_strlit("source");
    reveal_strlit("status");
    reveal_strlit("tab_id");
    reveal_strlit("command");
    reveal_strlit("project");
    reveal_strlit("summary");
    reveal_strlit("unknown");
    reveal_strlit("accepted");
    reveal_strlit("claim_id");
    reveal_strlit("evidence");
    reveal_strlit("reported");
    reveal_strlit("verified");
    reveal_strlit("commander");
    reveal_strlit("exit_code");
    reveal_strlit("confidence");
    reveal_strlit("created_at");
    reveal_strlit("started_at");
    reveal_strlit("updated_at");
    reveal_strlit("accepted_at");
    reveal_strlit("accepted_by");
    reveal_strlit("claim_state");
    reveal_strlit("coordinator");
    reveal_strlit("duration_ms");
    reveal_strlit("evidence_id");
    reveal_strlit("finished_at");
    reveal_strlit("stderr_tail");
    reveal_strlit("stdout_tail");
    reveal_strlit("verified_at");
    reveal_strlit("need_decision");
    reveal_strlit("claim_accepted");
    reveal_strlit("evidence_count");
    reveal_strlit("status_claimed");
    reveal_strlit("acceptance_note");
    reveal_strlit("reported_status");
    reveal_strlit("verification_failed");
    reveal_strlit("verification_passed");
    reveal_strlit("verification_failed_at");
}


/// Two objects differ at most under these names.
pub open spec fn same_but(before: JsonV, after: JsonV, names: Seq<Seq<char>>) -> bool {
    &&& before is Object
    &&& after is Object
    &&& forall|name: Seq<char>|
        !names.contains(name) ==> #[trigger] after.get(name) == before.get(name)
}

/// Two registries differ at most in the entry of a project.
pub open spec fn same_besides(before: Members, after: Members, project: Seq<char>) -> bool {
    forall|other: Seq<char>|
        other != project ==> #[trigger] after.contains_key(other) == before.contains_key(other)
            && (before.contains_key(other) ==> after[other] == before[other])
}

/// The first claim of a project with an identifier.
pub open spec fn is_claim(claims: Seq<JsonV>, project: Seq<char>, id: Seq<char>, i: int) -> bool {
    &&& 0 <= i < claims.len()
    &&& claims[i].string("project"@) == project
    &&& claims[i].string("id"@) == id
    &&& forall|k: int|
        0 <= k < i ==> !((#[trigger] claims[k]).string("project"@) == project
            && claims[k].string("id"@) == id)
}

/// The last claim of a project.
pub open spec fn is_latest(claims: Seq<JsonV>, project: Seq<char>, i: int) -> bool {
    &&& 0 <= i < claims.len()
    &&& claims[i].string("project"@) == project
    &&& forall|k: int|
        i < k < claims.len() ==> (#[trigger] claims[k]).string("project"@) != project
}

/// The claim that is meant: the one with the identifier where one is given, or
/// else the last of the project.
pub open spec fn is_meant(
    claims: Seq<JsonV>,
    project: Seq<char>,
    id: Option<Seq<char>>,
    i: int,
) -> bool {
    match id {
        Some(wanted) => is_claim(claims, project, wanted, i),
        None => is_latest(claims, project, i),
    }
}

/// No claim is meant.
pub open spec fn none_meant(claims: Seq<JsonV>, project: Seq<char>, id: Option<Seq<char>>) -> bool {
    forall|k: int|
        0 <= k < claims.len() ==> !((#[trigger] claims[k]).string("project"@) == project && (
        id is Some ==> claims[k].string("id"@) == id->0))
}

/// A claim is looked up as it is meant: exactly one is, unless none is.
pub proof fn law_claim_is_looked_up(
    claims: Seq<JsonV>,
    project: Seq<char>,
    id: Option<Seq<char>>,
    i: int,
)
    ensures
        records::claim_index(claims, project, id) == Some(i) <==> is_meant(
            claims,
            project,
            id,
            i,
        ),
        records::claim_index(claims, project, id) is None <==> none_meant(claims, project, id),
        is_meant(claims, project, id, i) ==> records::claim_meant(claims, project, id) == Some(
            claims[i],
        ),
        none_meant(claims, project, id) ==> records::claim_meant(claims, project, id) is None,
{
    match id {
        Some(wanted) => {
            let named = records::claim_named(project, wanted);
            records::lemma_first_where(claims, named);
            if is_meant(claims, project, id, i) {
                assert forall|k: int| 0 <= k < i implies !named(#[trigger] claims[k]) by {}
                records::lemma_first_where_is(claims, named, i);
            }
            if none_meant(claims, project, id) {
                assert forall|k: int| 0 <= k < claims.len() implies !named(
                    #[trigger] claims[k],
                ) by {}
                records::lemma_nowhere(claims, named);
            }
            match records::first_where(claims, named) {
                Some(n) => {
                    assert forall|k: int| 0 <= k < n implies !((#[trigger] claims[k]).string(
                        "project"@,
                    ) == project && claims[k].string("id"@) == wanted) by {
                        assert(!named(claims[k]));
                    }
                },
                None => {
                    assert forall|k: int| 0 <= k < claims.len() implies !((
                    #[trigger] claims[k]).string("project"@) == project && (id is Some
                        ==> claims[k].string("id"@) == id->0)) by {
                        assert(!named(claims[k]));
                    }
                },
            }
        },
        None => {
            let own = records::claim_of(project);
            records::lemma_last_where(claims, own);
            if is_meant(claims, project, id, i) {
                assert forall|k: int| i < k < claims.len() implies !own(#[trigger] claims[k]) by {}
                records::lemma_last_where_is(claims, own, i);
            }
            if none_meant(claims, project, id) {
                assert forall|k: int| 0 <= k < claims.len() implies !own(
                    #[trigger] claims[k],
                ) by {}
                records::lemma_nowhere(claims, own);
            }
            match records::last_where(claims, own) {
                Some(n) => {
                    assert forall|k: int| n < k < claims.len() implies (
                    #[trigger] claims[k]).string("project"@) != project by {
                        assert(!own(claims[k]));
                    }
                },
                None => {
                    assert forall|k: int| 0 <= k < claims.len() implies !((
                    #[trigger] claims[k]).string("project"@) == project && (id is Some
                        ==> claims[k].string("id"@) == id->0)) by {
                        assert(!own(claims[k]));
                    }
                },
            }
        },
    }
}

/// The end of a text, of four thousand characters at most.
pub open spec fn is_tail(tail: Seq<char>, whole: Seq<char>) -> bool {
    &&& exists|head: Seq<char>| whole == #[trigger] (head + tail)
    &&& whole.len() <= 4000 ==> tail == whole
    &&& whole.len() > 4000 ==> tail.len() == 4000
}

proof fn lemma_tail(whole: Seq<char>)
    ensures
        is_tail(ledger::tail_of(whole, ledger::TAIL_LIMIT as nat), whole),
{
    let tail = ledger::tail_of(whole, ledger::TAIL_LIMIT as nat);
    if whole.len() <= ledger::TAIL_LIMIT {
        assert(whole =~= Seq::<char>::empty() + tail);
    } else {
        let head = whole.take(whole.len() - ledger::TAIL_LIMIT);
        assert(whole =~= head + tail);
    }
}

/// A piece of evidence says what a command has shown.
pub open spec fn shows_run(
    evidence: JsonV,
    check: CheckV,
    run: ExecutionV,
    token: Seq<char>,
) -> bool {
    &&& evidence.get("id"@) == Some(JsonV::Text("evidence-"@ + token))
    &&& evidence.get("kind"@) == Some(JsonV::Text("command"@))
    &&& evidence.get("label"@) == Some(JsonV::Text(check.label))
    &&& evidence.at("command"@) is Array
    &&& evidence.at("command"@).items().len() == check.argv.len()
    &&& forall|k: int|
        0 <= k < check.argv.len() ==> #[trigger] evidence.at("command"@).items()[k]
            == JsonV::Text(check.argv[k])
    &&& evidence.get("cwd"@) == Some(JsonV::Text(check.cwd))
    &&& evidence.get("source"@) == Some(JsonV::Text("coordinator"@))
    &&& evidence.get("verified"@) == Some(JsonV::Bool(run.exit_code == 0))
    &&& evidence.get("exit_code"@) == Some(JsonV::Int(run.exit_code))
    &&& evidence.at("stdout_tail"@) is Text
    &&& is_tail(evidence.string("stdout_tail"@), run.stdout)
    &&& evidence.at("stderr_tail"@) is Text
    &&& is_tail(evidence.string("stderr_tail"@), run.stderr)
    &&& run.error is Some ==> evidence.get("error"@) == Some(JsonV::Text(run.error->0))
    &&& run.error is None ==> evidence.get("error"@) == Some(JsonV::Null)
    &&& evidence.get("started_at"@) == Some(JsonV::Text(run.started_at))
    &&& evidence.get("finished_at"@) == Some(JsonV::Text(run.finished_at))
    &&& evidence.at("duration_ms"@) is Int
    &&& evidence.at("duration_ms"@)->Int_0 >= 0
    &&& run.duration_ms >= 0 ==> evidence.at("duration_ms"@)->Int_0 == run.duration_ms
    &&& run.duration_ms < 0 ==> evidence.at("duration_ms"@)->Int_0 == 0
}

proof fn lemma_run_shown(check: CheckV, run: ExecutionV, token: Seq<char>)
    ensures
        shows_run(ledger::check_evidence(check, run, token), check, run, token),
{
    lemma_words();
    lemma_tail(run.stdout);
    lemma_tail(run.stderr);
}

/// A registry after a claim has changed its state: where the entry of the
/// project points to the claim, it shows the new state and the time, and
/// changes in nothing else; where it points to another claim or to none, the
/// registry is as it was.
pub open spec fn follows_claim(
    before: Members,
    after: Members,
    project: Seq<char>,
    id: Seq<char>,
    state: JsonV,
    now: Seq<char>,
) -> bool {
    if before[project].get("claim_id"@) == Some(JsonV::Text(id)) {
        &&& after.contains_key(project)
        &&& same_but(
            before[project],
            after[project],
            seq!["claim_state"@, "updated_at"@],
        )
        &&& after[project].get("claim_state"@) == Some(state)
        &&& after[project].get("updated_at"@) == Some(JsonV::Text(now))
        &&& same_besides(before, after, project)
    } else {
        after == before
    }
}

proof fn lemma_follows(
    registry: Members,
    project: Seq<char>,
    id: Seq<char>,
    state: JsonV,
    now: Seq<char>,
)
    requires
        registry.contains_key(project),
    ensures
        follows_claim(
            registry,
            ledger::with_claim_state(registry, project, id, state, now),
            project,
            id,
            state,
            now,
        ),
{
    lemma_words();
    let names = seq!["claim_state"@, "updated_at"@];
    assert(names[0] == "claim_state"@ && names[1] == "updated_at"@);
    assert(names.contains("claim_state"@) && names.contains("updated_at"@));
}

/// A verification is recorded if and only if the project is registered, the
/// claim is there and is an object, and its evidence is a list or missing.
/// Otherwise the refusal says which of these is wrong.
pub proof fn law_verification_is_owed(
    registry: Members,
    claims: Seq<JsonV>,
    check: CheckV,
    run: ExecutionV,
    token: Seq<char>,
    i: int,
)
    ensures
        ({
            let outcome = ledger::verify_outcome(registry, claims, check, run, token);
            let known = registry.contains_key(check.project);
            let found = is_claim(claims, check.project, check.claim_id, i);
            &&& !known ==> outcome == Err::<Change, FaultV>(
                fault::about(FaultKind::Unregistered, check.project),
            )
            &&& known && none_meant(claims, check.project, Some(check.claim_id)) ==> outcome
                == Err::<Change, FaultV>(fault::about(FaultKind::ClaimVanished, check.claim_id))
            &&& known && found && !(claims[i] is Object) ==> outcome is Err
            &&& known && found && claims[i] is Object && claims[i].get("evidence"@) is Some
                && !(claims[i].at("evidence"@) is Array) ==> outcome == Err::<Change, FaultV>(
                fault::plain(FaultKind::BadEvidence),
            )
            &&& known && found && claims[i] is Object && (claims[i].get("evidence"@) is None
                || claims[i].at("evidence"@) is Array) ==> outcome is Ok
        }),
{
    law_claim_is_looked_up(claims, check.project, Some(check.claim_id), i);
}

/// A verification adds one piece of evidence to its claim, which says what the
/// command has shown, and judges the claim by it: passed it is verified, failed
/// it is only reported, unless it was accepted before. Nothing else of the
/// claim changes, no other claim does, and the registry follows only where the
/// entry of the project points to this claim.
pub proof fn law_verification_is_of_its_claim(
    registry: Members,
    claims: Seq<JsonV>,
    check: CheckV,
    run: ExecutionV,
    token: Seq<char>,
    i: int,
)
    requires
        is_claim(claims, check.project, check.claim_id, i),
        ledger::verify_outcome(registry, claims, check, run, token) is Ok,
    ensures
        ({
            let after = ledger::verify_outcome(registry, claims, check, run, token)->Ok_0;
            let passed = run.exit_code == 0;
            let (before, claim) = (claims[i], after.list[i]);
            let held = before.at("evidence"@).items();
            let time = if passed {
                "verified_at"@
            } else {
                "verification_failed_at"@
            };
            &&& after.list.len() == claims.len()
            &&& forall|k: int|
                0 <= k < claims.len() && k != i ==> #[trigger] after.list[k] == claims[k]
            &&& same_but(before, claim, seq!["evidence"@, "state"@, time])
            &&& claim.at("evidence"@) is Array
            &&& claim.at("evidence"@).items().len() == held.len() + 1
            &&& held.is_prefix_of(claim.at("evidence"@).items())
            &&& shows_run(claim.at("evidence"@).items().last(), check, run, token)
            &&& claim.get(time) == Some(JsonV::Text(run.finished_at))
            &&& claim.get("state"@) == Some(
                JsonV::Text(
                    if before.get("state"@) == Some(JsonV::Text("accepted"@)) {
                        "accepted"@
                    } else if passed {
                        "verified"@
                    } else {
                        "reported"@
                    },
                ),
            )
            &&& follows_claim(
                registry,
                after.registry,
                check.project,
                check.claim_id,
                claim.at("state"@),
                run.finished_at,
            )
        }),
{
    lemma_words();
    law_claim_is_looked_up(claims, check.project, Some(check.claim_id), i);
    lemma_run_shown(check, run, token);
    let passed = run.exit_code == 0;
    let after = ledger::verify_outcome(registry, claims, check, run, token)->Ok_0;
    let claim = after.list[i];
    let time = if passed {
        "verified_at"@
    } else {
        "verification_failed_at"@
    };
    let names = seq!["evidence"@, "state"@, time];
    assert(names[0] == "evidence"@ && names[1] == "state"@ && names[2] == time);
    assert(names.contains("evidence"@) && names.contains("state"@) && names.contains(time));
    lemma_follows(
        registry,
        check.project,
        check.claim_id,
        claim.at("state"@),
        run.finished_at,
    );
}

/// A verification is told to the inbox with its outcome.
pub proof fn law_verification_is_told(
    registry: Members,
    claims: Seq<JsonV>,
    check: CheckV,
    run: ExecutionV,
    token: Seq<char>,
    i: int,
)
    requires
        is_claim(claims, check.project, check.claim_id, i),
        ledger::verify_outcome(registry, claims, check, run, token) is Ok,
    ensures
        ({
            let notice = ledger::verify_outcome(
                registry,
                claims,
                check,
                run,
                token,
            )->Ok_0.notice;
            let passed = run.exit_code == 0;
            &&& notice.get("ts"@) == Some(JsonV::Text(run.finished_at))
            &&& notice.get("type"@) == Some(
                JsonV::Text(
                    if passed { "verification_passed"@ } else { "verification_failed"@ },
                ),
            )
            &&& notice.get("project"@) == Some(JsonV::Text(check.project))
            &&& notice.get("status"@) == (match claims[i].get("status"@) {
                Some(status) => Some(status),
                None => Some(JsonV::Text("unknown"@)),
            })
            &&& notice.get("summary"@) == Some(
                JsonV::Text(check.label + (if passed { ": 通过"@ } else { ": 失败"@ })),
            )
            &&& notice.get("claim_id"@) == Some(JsonV::Text(check.claim_id))
            &&& notice.get("evidence_id"@) == Some(JsonV::Text("evidence-"@ + token))
            &&& notice.get("exit_code"@) == Some(JsonV::Int(run.exit_code))
        }),
{
    lemma_words();
    law_claim_is_looked_up(claims, check.project, Some(check.claim_id), i);
    reveal_strlit(": ");
    reveal_strlit("通过");
    reveal_strlit("失败");
    reveal_strlit(": 通过");
    reveal_strlit(": 失败");
    assert(": "@ + "通过"@ =~= ": 通过"@);
    assert(": "@ + "失败"@ =~= ": 失败"@);
    assert(check.label + ": "@ + "通过"@ =~= check.label + ": 通过"@);
    assert(check.label + ": "@ + "失败"@ =~= check.label + ": 失败"@);
}

/// A claim is accepted if and only if the project is registered, the claim is
/// there and claims completion, and it is verified or the user forces it. Each
/// refusal says which of these is wrong.
pub proof fn law_acceptance_is_owed(
    registry: Members,
    claims: Seq<JsonV>,
    given: AcceptanceV,
    i: int,
)
    ensures
        ({
            let outcome = ledger::accept_outcome(registry, claims, given);
            let known = registry.contains_key(given.project);
            let found = is_meant(claims, given.project, given.claim_id, i);
            let done = claims[i].get("status"@) == Some(JsonV::Text("done"@));
            let verified = claims[i].get("state"@) == Some(JsonV::Text("verified"@));
            &&& !known ==> outcome == Err::<(Change, Seq<char>), FaultV>(
                fault::about(FaultKind::Unregistered, given.project),
            )
            &&& known && none_meant(claims, given.project, given.claim_id) ==> outcome == Err::<
                (Change, Seq<char>),
                FaultV,
            >(fault::about(FaultKind::NothingToAccept, given.project))
            &&& known && found && !done ==> outcome == Err::<(Change, Seq<char>), FaultV>(
                fault::plain(FaultKind::NotDone),
            )
            &&& known && found && done && !verified && !given.force ==> outcome == Err::<
                (Change, Seq<char>),
                FaultV,
            >(fault::plain(FaultKind::NotVerified))
            &&& known && found && done && (verified || given.force) ==> outcome is Ok
        }),
{
    lemma_words();
    law_claim_is_looked_up(claims, given.project, given.claim_id, i);
    assert("done"@.len() > 0 && "verified"@.len() > 0);
}

/// An acceptance says of its claim who has accepted it, when and with which
/// note. Nothing else of the claim changes, no other claim does, and the
/// registry follows only where the entry of the project points to this claim.
pub proof fn law_acceptance_is_of_its_claim(
    registry: Members,
    claims: Seq<JsonV>,
    given: AcceptanceV,
    i: int,
)
    requires
        is_meant(claims, given.project, given.claim_id, i),
        ledger::accept_outcome(registry, claims, given) is Ok,
    ensures
        ({
            let (after, id) = ledger::accept_outcome(registry, claims, given)->Ok_0;
            let (before, claim) = (claims[i], after.list[i]);
            &&& id == before.string("id"@)
            &&& after.list.len() == claims.len()
            &&& forall|k: int|
                0 <= k < claims.len() && k != i ==> #[trigger] after.list[k] == claims[k]
            &&& same_but(
                before,
                claim,
                seq!["state"@, "accepted_at"@, "accepted_by"@, "acceptance_note"@],
            )
            &&& claim.get("state"@) == Some(JsonV::Text("accepted"@))
            &&& claim.get("accepted_at"@) == Some(JsonV::Text(given.now))
            &&& claim.get("accepted_by"@) == Some(JsonV::Text(given.operator))
            &&& given.note.len() > 0 ==> claim.get("acceptance_note"@) == Some(
                JsonV::Text(given.note),
            )
            &&& given.note.len() == 0 ==> claim.get("acceptance_note"@) == Some(JsonV::Null)
            &&& follows_claim(
                registry,
                after.registry,
                given.project,
                id,
                JsonV::Text("accepted"@),
                given.now,
            )
            &&& after.notice.get("ts"@) == Some(JsonV::Text(given.now))
            &&& after.notice.get("type"@) == Some(JsonV::Text("claim_accepted"@))
            &&& after.notice.get("project"@) == Some(JsonV::Text(given.project))
            &&& after.notice.get("status"@) == Some(JsonV::Text("done"@))
            &&& after.notice.get("claim_id"@) == Some(JsonV::Text(id))
            &&& after.notice.get("summary"@) == Some(
                JsonV::Text(if given.note.len() > 0 { given.note } else { "用户已验收"@ }),
            )
        }),
{
    lemma_words();
    law_claim_is_looked_up(claims, given.project, given.claim_id, i);
    let (after, id) = ledger::accept_outcome(registry, claims, given)->Ok_0;
    assert(claims[i].string("status"@).len() > 0);
    let names = seq!["state"@, "accepted_at"@, "accepted_by"@, "acceptance_note"@];
    assert(names[0] == "state"@ && names[1] == "accepted_at"@);
    assert(names[2] == "accepted_by"@ && names[3] == "acceptance_note"@);
    assert(names.contains("state"@) && names.contains("accepted_at"@));
    assert(names.contains("accepted_by"@) && names.contains("acceptance_note"@));
    lemma_follows(registry, given.project, id, JsonV::Text("accepted"@), given.now);
}

/// Some decision of a project is open.
pub open spec fn is_awaited(decisions: Seq<JsonV>, project: Seq<char>) -> bool {
    exists|k: int|
        0 <= k < decisions.len() && (#[trigger] decisions[k]).string("state"@) == "open"@
            && decisions[k].string("project"@) == project
}

/// A decision is open exactly where it says so.
pub proof fn lemma_awaited(decisions: Seq<JsonV>, project: Seq<char>)
    ensures
        is_awaited(decisions, project) == records::has_open(decisions, project),
{
    if is_awaited(decisions, project) {
        let k = choose|k: int|
            0 <= k < decisions.len() && (#[trigger] decisions[k]).string("state"@) == "open"@
                && decisions[k].string("project"@) == project;
        assert(records::is_open(decisions[k], Some(project)));
    }
    if records::has_open(decisions, project) {
        let k = choose|k: int|
            0 <= k < decisions.len() && records::is_open(#[trigger] decisions[k], Some(project));
        assert(decisions[k].string("state"@) == "open"@);
    }
}

/// A report is recorded if and only if its project is registered with an
/// object. It adds one claim behind all others, which holds what was claimed
/// and is neither verified nor accepted; the entry of the project points to it
/// and shows what was reported unless a decision is open; nothing else changes.
pub proof fn law_report_is_recorded(
    registry: Members,
    decisions: Seq<JsonV>,
    claims: Seq<JsonV>,
    claim: ClaimV,
)
    ensures
        ({
            let outcome = ledger::report_outcome(registry, decisions, claims, claim);
            let known = registry.contains_key(claim.project);
            &&& !known ==> outcome == Err::<Change, FaultV>(
                fault::about(FaultKind::Unregistered, claim.project),
            )
            &&& known && !(registry[claim.project] is Object) ==> outcome == Err::<Change, FaultV>(
                fault::plain(FaultKind::NotAnObject),
            )
            &&& known && registry[claim.project] is Object ==> {
                let after = outcome->Ok_0;
                let record = after.list.last();
                let entry = after.registry[claim.project];
                &&& outcome is Ok
                &&& after.list.len() == claims.len() + 1
                &&& claims.is_prefix_of(after.list)
                &&& record.get("id"@) == Some(JsonV::Text(claim.id))
                &&& record.get("project"@) == Some(JsonV::Text(claim.project))
                &&& record.get("status"@) == Some(JsonV::Text(claim.status))
                &&& record.get("summary"@) == Some(JsonV::Text(claim.summary))
                &&& record.get("confidence"@) == Some(claim.confidence)
                &&& record.get("state"@) == Some(JsonV::Text("reported"@))
                &&& record.get("evidence"@) == Some(JsonV::Array(claim.evidence))
                &&& record.get("created_at"@) == Some(JsonV::Text(claim.created))
                &&& record.get("verified_at"@) == Some(JsonV::Null)
                &&& record.get("accepted_at"@) == Some(JsonV::Null)
                &&& record.get("accepted_by"@) == Some(JsonV::Null)
                &&& record.get("acceptance_note"@) == Some(JsonV::Null)
                &&& after.registry.contains_key(claim.project)
                &&& same_besides(registry, after.registry, claim.project)
                &&& same_but(
                    registry[claim.project],
                    entry,
                    seq![
                        "reported_status"@,
                        "status"@,
                        "note"@,
                        "claim_id"@,
                        "claim_state"@,
                        "updated_at"@,
                    ],
                )
                &&& entry.get("reported_status"@) == Some(JsonV::Text(claim.status))
                &&& entry.get("status"@) == Some(
                    JsonV::Text(
                        if is_awaited(decisions, claim.project) {
                            "need_decision"@
                        } else {
                            claim.status
                        },
                    ),
                )
                &&& entry.get("note"@) == Some(JsonV::Text(claim.summary))
                &&& entry.get("claim_id"@) == Some(JsonV::Text(claim.id))
                &&& entry.get("claim_state"@) == Some(JsonV::Text("reported"@))
                &&& entry.get("updated_at"@) == Some(JsonV::Text(claim.created))
            }
        }),
{
    lemma_words();
    lemma_awaited(decisions, claim.project);
    let names = seq![
        "reported_status"@,
        "status"@,
        "note"@,
        "claim_id"@,
        "claim_state"@,
        "updated_at"@,
    ];
    assert(names[0] == "reported_status"@ && names[1] == "status"@ && names[2] == "note"@);
    assert(names[3] == "claim_id"@ && names[4] == "claim_state"@ && names[5] == "updated_at"@);
    assert(names.contains("reported_status"@) && names.contains("status"@));
    assert(names.contains("note"@) && names.contains("claim_id"@));
    assert(names.contains("claim_state"@) && names.contains("updated_at"@));
}

/// A report is told to the inbox, with how much evidence came with it.
pub proof fn law_report_is_told(
    registry: Members,
    decisions: Seq<JsonV>,
    claims: Seq<JsonV>,
    claim: ClaimV,
)
    requires
        ledger::report_outcome(registry, decisions, claims, claim) is Ok,
    ensures
        ({
            let notice = ledger::report_outcome(registry, decisions, claims, claim)->Ok_0.notice;
            &&& notice.get("ts"@) == Some(JsonV::Text(claim.created))
            &&& notice.get("type"@) == Some(JsonV::Text("status_claimed"@))
            &&& notice.get("project"@) == Some(JsonV::Text(claim.project))
            &&& notice.get("status"@) == Some(JsonV::Text(claim.status))
            &&& notice.get("summary"@) == Some(JsonV::Text(claim.summary))
            &&& notice.get("claim_id"@) == Some(JsonV::Text(claim.id))
            &&& notice.get("claim_state"@) == Some(JsonV::Text("reported"@))
            &&& notice.get("confidence"@) == Some(claim.confidence)
            &&& notice.get("evidence_count"@) == Some(JsonV::Int(claim.evidence.len() as int))
        }),
{
    lemma_words();
}

/// The entries follow the claims that they point to: where an entry names a
/// claim, that claim is there, and the entry shows its state.
pub open spec fn is_consistent(registry: Members, claims: Seq<JsonV>) -> bool {
    forall|project: Seq<char>| #[trigger]
        registry.contains_key(project) ==> points_rightly(registry[project], claims, project)
}

/// An entry shows the state of the claim that it points to, if to any.
pub open spec fn points_rightly(entry: JsonV, claims: Seq<JsonV>, project: Seq<char>) -> bool {
    match entry.get("claim_id"@) {
        Some(JsonV::Text(id)) => exists|i: int| #[trigger]
            is_claim(claims, project, id, i) && claims[i] is Object && entry.get(
                "claim_state"@,
            ) == claims[i].get("state"@),
        _ => true,
    }
}

/// A change of one claim, as it is read or by a report, keeps the first claim
/// with an identifier where it was.
proof fn lemma_claim_stays(
    before: Seq<JsonV>,
    after: Seq<JsonV>,
    project: Seq<char>,
    id: Seq<char>,
    i: int,
)
    requires
        is_claim(before, project, id, i),
        before.len() <= after.len(),
        forall|k: int|
            0 <= k < before.len() ==> (#[trigger] after[k]).string("project"@)
                == before[k].string("project"@) && after[k].string("id"@) == before[k].string(
                "id"@,
            ),
    ensures
        is_claim(after, project, id, i),
{
    assert forall|k: int| 0 <= k < i implies !((#[trigger] after[k]).string("project"@)
        == project && after[k].string("id"@) == id) by {
        assert(!(before[k].string("project"@) == project && before[k].string("id"@) == id));
    }
}

/// A verification keeps entries and claims in step.
pub proof fn law_verification_keeps_step(
    registry: Members,
    claims: Seq<JsonV>,
    check: CheckV,
    run: ExecutionV,
    token: Seq<char>,
)
    requires
        is_consistent(registry, claims),
        ledger::verify_outcome(registry, claims, check, run, token) is Ok,
    ensures
        ({
            let after = ledger::verify_outcome(registry, claims, check, run, token)->Ok_0;
            is_consistent(after.registry, after.list)
        }),
{
    lemma_words();
    let after = ledger::verify_outcome(registry, claims, check, run, token)->Ok_0;
    let i = records::claim_index(claims, check.project, Some(check.claim_id))->0;
    law_claim_is_looked_up(claims, check.project, Some(check.claim_id), i);
    law_verification_is_of_its_claim(registry, claims, check, run, token, i);
    lemma_step_kept(
        registry,
        claims,
        after.registry,
        after.list,
        check.project,
        check.claim_id,
        i,
        run.finished_at,
    );
}

/// An acceptance keeps entries and claims in step.
pub proof fn law_acceptance_keeps_step(registry: Members, claims: Seq<JsonV>, given: AcceptanceV)
    requires
        is_consistent(registry, claims),
        ledger::accept_outcome(registry, claims, given) is Ok,
        forall|i: int|
            #[trigger] is_meant(claims, given.project, given.claim_id, i) ==> is_claim(
                claims,
                given.project,
                claims[i].string("id"@),
                i,
            ),
    ensures
        ({
            let after = ledger::accept_outcome(registry, claims, given)->Ok_0.0;
            is_consistent(after.registry, after.list)
        }),
{
    lemma_words();
    let (after, id) = ledger::accept_outcome(registry, claims, given)->Ok_0;
    let i = records::claim_index(claims, given.project, given.claim_id)->0;
    law_claim_is_looked_up(claims, given.project, given.claim_id, i);
    law_acceptance_is_of_its_claim(registry, claims, given, i);
    lemma_step_kept(
        registry,
        claims,
        after.registry,
        after.list,
        given.project,
        id,
        i,
        given.now,
    );
}

/// What changes one claim and lets the registry follow keeps both in step.
proof fn lemma_step_kept(
    registry: Members,
    claims: Seq<JsonV>,
    registry_after: Members,
    claims_after: Seq<JsonV>,
    project: Seq<char>,
    id: Seq<char>,
    i: int,
    now: Seq<char>,
)
    requires
        is_consistent(registry, claims),
        registry.contains_key(project),
        is_claim(claims, project, id, i),
        claims_after.len() == claims.len(),
        forall|k: int|
            0 <= k < claims.len() && k != i ==> #[trigger] claims_after[k] == claims[k],
        claims_after[i] is Object,
        claims_after[i].string("project"@) == project,
        claims_after[i].string("id"@) == id,
        claims_after[i].get("state"@) is Some,
        follows_claim(
            registry,
            registry_after,
            project,
            id,
            claims_after[i].at("state"@),
            now,
        ),
    ensures
        is_consistent(registry_after, claims_after),
{
    lemma_words();
    let names = seq!["claim_state"@, "updated_at"@];
    assert(!names.contains("claim_id"@)) by {
        assert(names.len() == 2 && names[0] == "claim_state"@ && names[1] == "updated_at"@);
    }
    assert forall|p: Seq<char>| #[trigger]
        registry_after.contains_key(p) implies points_rightly(
        registry_after[p],
        claims_after,
        p,
    ) by {
        assert(registry.contains_key(p));
        assert(registry_after[p].get("claim_id"@) == registry[p].get("claim_id"@));
        assert(points_rightly(registry[p], claims, p));
        if registry[p].at("claim_id"@) is Text {
            let n = registry[p].string("claim_id"@);
            let k = choose|k: int| #[trigger]
                is_claim(claims, p, n, k) && claims[k] is Object && registry[p].get("claim_state"@)
                    == claims[k].get("state"@);
            lemma_claim_stays(claims, claims_after, p, n, k);
            if k == i {
                assert(p == project && n == id);
                assert(is_claim(claims_after, p, n, i));
            } else {
                if p == project && n == id {
                    assert(i < k || k < i);
                }
                assert(registry_after[p].get("claim_state"@) == registry[p].get("claim_state"@));
            }
        }
    }
}

/// A report keeps entries and claims in step, where its identifier is new.
pub proof fn law_report_keeps_step(
    registry: Members,
    decisions: Seq<JsonV>,
    claims: Seq<JsonV>,
    claim: ClaimV,
)
    requires
        is_consistent(registry, claims),
        ledger::report_outcome(registry, decisions, claims, claim) is Ok,
        none_meant(claims, claim.project, Some(claim.id)),
    ensures
        ({
            let after = ledger::report_outcome(registry, decisions, claims, claim)->Ok_0;
            is_consistent(after.registry, after.list)
        }),
{
    lemma_words();
    law_report_is_recorded(registry, decisions, claims, claim);
    let after = ledger::report_outcome(registry, decisions, claims, claim)->Ok_0;
    let at = claims.len() as int;
    assert forall|k: int| 0 <= k < claims.len() implies #[trigger] after.list[k] == claims[k] by {}
    assert forall|p: Seq<char>| #[trigger]
        after.registry.contains_key(p) implies points_rightly(
        after.registry[p],
        after.list,
        p,
    ) by {
        let n = after.registry[p].string("claim_id"@);
        if p == claim.project {
            assert(n == claim.id);
            assert forall|k: int| 0 <= k < at implies !((#[trigger] after.list[k]).string(
                "project"@,
            ) == p && after.list[k].string("id"@) == n) by {
                assert(after.list[k] == claims[k]);
            }
            assert(after.list[at] == after.list.last());
            assert(is_claim(after.list, p, n, at));
        } else {
            assert(registry.contains_key(p));
            assert(points_rightly(registry[p], claims, p));
            if registry[p].at("claim_id"@) is Text {
                let k = choose|k: int| #[trigger]
                    is_claim(claims, p, n, k) && claims[k] is Object && registry[p].get(
                        "claim_state"@,
                    ) == claims[k].get("state"@);
                lemma_claim_stays(claims, after.list, p, n, k);
            }
        }
    }
}

/// What a commander declares as evidence: of a text with a colon the part
/// before the first one is the kind and the part behind it the value; a text
/// without one is a note. Both are taken without white space around them, and
/// evidence without a value is refused.
pub proof fn law_evidence_is_kind_and_value(
    kind: Seq<char>,
    value: Seq<char>,
    token: Seq<char>,
    now: Seq<char>,
)
    requires
        forall|k: int| 0 <= k < kind.len() ==> kind[k] != ':',
    ensures
        ({
            let given = ledger::evidence_outcome(kind + ":"@ + value, token, now);
            let bare = ledger::evidence_outcome(kind, token, now);
            &&& text::trimmed(value).len() == 0 ==> given == Err::<JsonV, FaultV>(
                fault::plain(FaultKind::EmptyEvidence),
            )
            &&& text::trimmed(value).len() > 0 ==> given is Ok && is_declared(
                given->Ok_0,
                if text::trimmed(kind).len() > 0 { text::trimmed(kind) } else { "note"@ },
                text::trimmed(value),
                token,
                now,
            )
            &&& text::trimmed(kind).len() == 0 ==> bare == Err::<JsonV, FaultV>(
                fault::plain(FaultKind::EmptyEvidence),
            )
            &&& text::trimmed(kind).len() > 0 ==> bare is Ok && is_declared(
                bare->Ok_0,
                "note"@,
                text::trimmed(kind),
                token,
                now,
            )
        }),
{
    lemma_words();
    reveal_strlit(":");
    let whole = kind + ":"@ + value;
    lemma_colon(kind, value);
    lemma_no_colon(kind);
    assert(whole.take(kind.len() as int) =~= kind);
    assert(whole.skip((kind.len() + 1) as int) =~= value);
}

/// A piece of evidence that a commander declares.
pub open spec fn is_declared(
    evidence: JsonV,
    kind: Seq<char>,
    value: Seq<char>,
    token: Seq<char>,
    now: Seq<char>,
) -> bool {
    &&& evidence.get("id"@) == Some(JsonV::Text("evidence-"@ + token))
    &&& evidence.get("kind"@) == Some(JsonV::Text(kind))
    &&& evidence.get("value"@) == Some(JsonV::Text(value))
    &&& evidence.get("source"@) == Some(JsonV::Text("commander"@))
    &&& evidence.get("verified"@) == Some(JsonV::Bool(false))
    &&& evidence.get("created_at"@) == Some(JsonV::Text(now))
}

proof fn lemma_colon(kind: Seq<char>, value: Seq<char>)
    requires
        forall|k: int| 0 <= k < kind.len() ==> kind[k] != ':',
    ensures
        text::first_index(kind + ":"@ + value, ':') == kind.len(),
    decreases kind.len(),
{
    reveal_strlit(":");
    let whole = kind + ":"@ + value;
    if kind.len() > 0 {
        let rest = kind.drop_first();
        assert forall|k: int| 0 <= k < rest.len() implies rest[k] != ':' by {
            assert(rest[k] == kind[k + 1]);
        }
        lemma_colon(rest, value);
        assert(whole.drop_first() =~= rest + ":"@ + value);
        assert(whole[0] == kind[0]);
    } else {
        assert(whole[0] == ':');
    }
}

proof fn lemma_no_colon(kind: Seq<char>)
    requires
        forall|k: int| 0 <= k < kind.len() ==> kind[k] != ':',
    ensures
        text::first_index(kind, ':') == kind.len(),
    decreases kind.len(),
{
    if kind.len() > 0 {
        let rest = kind.drop_first();
        assert forall|k: int| 0 <= k < rest.len() implies rest[k] != ':' by {
            assert(rest[k] == kind[k + 1]);
        }
        lemma_no_colon(rest);
    }
}

} // verus!
