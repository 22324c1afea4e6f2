//! What the attention queue is for: which projects need somebody now, why, and
//! who is to act.
use vstd::prelude::*;
use crate::attention::ClockV;
use crate::attention;
use crate::json::{JsonV, Members};
use crate::json;
use crate::order;
use crate::outside;
use crate::records;
use crate::text;

verus! {

/// The words differ: in length, or in a letter.
proof fn lemma_words()
    ensures
        "id"@.len() == 2,
        "done"@.len() == 4 && "done"@[0] == 'd',
        "idle"@.len() == 4 && "idle"@[0] == 'i',
        "kind"@.len() == 4 && "kind"@[0] == 'k',
        "open"@.len() == 4 && "open"@[0] == 'o',
        "user"@.len() == 4 && "user"@[0] == 'u',
        "state"@.len() == 5,
        "action"@.len() == 6 && "action"@[0] == 'a',
        "online"@.len() == 6 && "online"@[0] == 'o',
        "reason"@.len() == 6 && "reason"@[0] == 'r',
        "status"@.len() == 6 && "status"@[0] == 's',
        "blocked"@.len() == 7 && "blocked"@[0] == 'b',
        "project"@.len() == 7 && "project"@[0] == 'p',
        "working"@.len() == 7 && "working"@[0] == 'w',
        "accepted"@.len() == 8 && "accepted"@[0] == 'a',
        "priority"@.len() == 8 && "priority"@[0] == 'p',
        "reported"@.len() == 8 && "reported"@[0] == 'r',
        "verified"@.len() == 8 && "verified"@[0] == 'v',
        "created_at"@.len() == 10,
        "age_seconds"@.len() == 11 && "age_seconds"@[0] == 'a',
        "coordinator"@.len() == 11 && "coordinator"@[0] == 'c',
        "live_status"@.len() == 11 && "live_status"@[0] == 'l',
        "reference_id"@.len() == 12,
        "need_decision"@.len() == 13 && "need_decision"@[0] == 'n',
        "stale_blocked"@.len() == 13 && "stale_blocked"@[0] == 's',
        "required_actor"@.len() == 14,
        "reported_status"@.len() == 15,
        "observed_blocked"@.len() == 16,
        "commander_offline"@.len() == 17 && "commander_offline"@[0] == 'c',
        "decision_required"@.len() == 17 && "decision_required"@[0] == 'd',
        "ready_for_acceptance"@.len() == 20 && "ready_for_acceptance"@[1] == 'e',
        "runtime_disconnected"@.len() == 20 && "runtime_disconnected"@[1] == 'u',
        "project_idle_mismatch"@.len() == 21,
        "reported_done_unverified"@.len() == 24,
{
    reveal_strlit("id");
    reveal_strlit("done");
    reveal_strlit("idle");
    reveal_strlit("kind");
    reveal_strlit("open");
    reveal_strlit("user");
    reveal_strlit("state");
    reveal_strlit("action");
    reveal_strlit("online");
    reveal_strlit("reason");
    reveal_strlit("status");
    reveal_strlit("blocked");
    reveal_strlit("project");
    reveal_strlit("working");
    reveal_strlit("accepted");
    reveal_strlit("priority");
    reveal_strlit("reported");
    reveal_strlit("verified");
    reveal_strlit("created_at");
    reveal_strlit("age_seconds");
    reveal_strlit("coordinator");
    reveal_strlit("live_status");
    reveal_strlit("reference_id");
    reveal_strlit("need_decision");
    reveal_strlit("stale_blocked");
    reveal_strlit("required_actor");
    reveal_strlit("reported_status");
    reveal_strlit("observed_blocked");
    reveal_strlit("commander_offline");
    reveal_strlit("decision_required");
    reveal_strlit("ready_for_acceptance");
    reveal_strlit("runtime_disconnected");
    reveal_strlit("project_idle_mismatch");
    reveal_strlit("reported_done_unverified");
}


/// Some decision of a project is open.
pub open spec fn awaits_decision(decisions: Seq<JsonV>, project: Seq<char>) -> bool {
    exists|i: int|
        0 <= i < decisions.len() && (#[trigger] decisions[i]).string("state"@) == "open"@
            && decisions[i].string("project"@) == project
}

/// A project stands at a status: none of its decisions is open, and it has
/// reported so, or was set so where it has reported nothing.
pub open spec fn stands_at(
    entry: JsonV,
    decisions: Seq<JsonV>,
    project: Seq<char>,
    status: Seq<char>,
) -> bool {
    &&& !awaits_decision(decisions, project)
    &&& match entry.get("reported_status"@) {
        Some(value) => value == JsonV::Text(status),
        None => entry.get("status"@) == Some(JsonV::Text(status)),
    }
}

/// What an entry of the queue says: who is to act on which project, why and
/// how, since when it waits, and what it is about.
pub struct Request {
    pub project: Seq<char>,
    pub kind: Seq<char>,
    pub priority: int,
    pub actor: Seq<char>,
    pub reason: Seq<char>,
    pub action: Seq<char>,
    pub since: Option<Seq<char>>,
    pub reference: Option<Seq<char>>,
}

/// An entry says what is requested, with the time of the reading of the clock
/// where no other is known.
pub open spec fn says(item: JsonV, wanted: Request, clock: ClockV) -> bool {
    let created = match wanted.since {
        Some(time) => time,
        None => clock.text,
    };
    &&& item.string("project"@) == wanted.project
    &&& item.string("kind"@) == wanted.kind
    &&& item.get("priority"@) == Some(JsonV::Int(wanted.priority))
    &&& item.string("required_actor"@) == wanted.actor
    &&& item.string("reason"@) == wanted.reason
    &&& item.string("action"@) == wanted.action
    &&& item.get("created_at"@) == Some(JsonV::Text(created))
    &&& item.get("reference_id"@) == (match wanted.reference {
        Some(id) => Some(JsonV::Text(id)),
        None => Some(JsonV::Null),
    })
    &&& item.string("id"@) == wanted.kind + ":"@ + wanted.project + ":"@ + (
    match wanted.reference {
        Some(id) => id,
        None => wanted.project,
    })
    &&& forall|seconds: int|
        seconds > 0 ==> (#[trigger] is_old(Some(created), clock, seconds)
            <==> item.at("age_seconds"@) is Int && item.at("age_seconds"@)->Int_0 >= seconds)
}

/// The queue holds an entry that says what is requested.
pub open spec fn queue_says(queue: Seq<JsonV>, wanted: Request, clock: ClockV) -> bool {
    exists|i: int| 0 <= i < queue.len() && says(#[trigger] queue[i], wanted, clock)
}

/// The request about a commander who is offline.
pub open spec fn offline_request(project: Seq<char>, status: Seq<char>, entry: JsonV, live: JsonV) -> Request {
    Request {
        project,
        kind: "commander_offline"@,
        priority: 88,
        actor: "coordinator"@,
        reason: "项目仍标记为 "@ + status + "，但机长 "@ + entry.string("commander"@)
            + " 已离线"@,
        action: "fleet route "@ + project + " <恢复或重新指派指令>"@,
        since: since_when(live),
        reference: None,
    }
}

/// The request about a commander who is blocked.
pub open spec fn blocked_request(project: Seq<char>, live: JsonV, stale: bool) -> Request {
    Request {
        project,
        kind: if stale { "stale_blocked"@ } else { "observed_blocked"@ },
        priority: if stale { 90 } else { 82 },
        actor: "coordinator"@,
        reason: if stale {
            "机长持续阻塞超过 10 分钟，且尚未创建正式决策"@
        } else {
            "机长实时状态为 blocked，但尚未创建正式决策"@
        },
        action: "fleet route "@ + project + " 请说明阻塞原因；需要用户拍板时运行 fleet ask"@,
        since: since_when(live),
        reference: None,
    }
}

/// The request about a commander who does nothing.
pub open spec fn idle_request(project: Seq<char>, live: JsonV) -> Request {
    Request {
        project,
        kind: "project_idle_mismatch"@,
        priority: 52,
        actor: "coordinator"@,
        reason: "项目仍标记 working，但机长已空闲超过 5 分钟"@,
        action: "fleet route "@ + project + " 请汇报当前项目状态"@,
        since: since_when(live),
        reference: None,
    }
}

/// The text of a member, or of another one where the first is missing.
pub open spec fn text_of_either(
    first: Option<JsonV>,
    second: Option<JsonV>,
) -> Option<Seq<char>> {
    match first {
        Some(JsonV::Text(text)) => Some(text),
        Some(_) => None,
        None => match second {
            Some(JsonV::Text(text)) => Some(text),
            _ => None,
        },
    }
}

/// The request about a completion that no command has verified.
pub open spec fn unverified_request(
    project: Seq<char>,
    entry: JsonV,
    claim: Option<JsonV>,
) -> Request {
    let id = match claim {
        Some(value) => value.string("id"@),
        None => Seq::empty(),
    };
    Request {
        project,
        kind: "reported_done_unverified"@,
        priority: 72,
        actor: "coordinator"@,
        reason: "机长声称完成，但尚无通过的机器验证证据"@,
        action: if id.len() == 0 {
            "fleet report "@ + project + " done <摘要> 后运行 fleet verify"@
        } else {
            "fleet verify "@ + project + " --claim "@ + id + " --label <标签> -- <验证命令>"@
        },
        since: text_of_either(
            match claim {
                Some(value) => value.get("created_at"@),
                None => None,
            },
            entry.get("updated_at"@),
        ),
        reference: if id.len() == 0 {
            None
        } else {
            Some(id)
        },
    }
}

/// The request about a completion that waits for the user.
pub open spec fn acceptance_request(project: Seq<char>, claim: JsonV) -> Request {
    Request {
        project,
        kind: "ready_for_acceptance"@,
        priority: 62,
        actor: "user"@,
        reason: "完成声明已通过机器验证，等待用户验收"@,
        action: "fleet accept "@ + project + " --claim "@ + claim.string("id"@),
        since: text_of_either(claim.get("verified_at"@), claim.get("created_at"@)),
        reference: Some(claim.string("id"@)),
    }
}

/// The request about a decision that waits for the user.
pub open spec fn decision_request(decision: JsonV) -> Request {
    Request {
        project: decision.string("project"@),
        kind: "decision_required"@,
        priority: 100,
        actor: "user"@,
        reason: match decision.get("question"@) {
            Some(JsonV::Text(question)) => question,
            _ => "需要用户拍板"@,
        },
        action: "fleet resolve "@ + decision.string("id"@) + " <答案>"@,
        since: text_of_either(decision.get("created_at"@), None),
        reference: Some(decision.string("id"@)),
    }
}

/// The request about a connection that was lost.
pub open spec fn lost_request(runtime: JsonV) -> Request {
    Request {
        project: "*"@,
        kind: "runtime_disconnected"@,
        priority: 95,
        actor: "coordinator"@,
        reason: match runtime.get("error"@) {
            Some(JsonV::Text(error)) => error,
            _ => "Herdr 实时状态连接中断"@,
        },
        action: "fleet plugin-reconcile"@,
        since: text_of_either(runtime.get("updated_at"@), None),
        reference: None,
    }
}

/// A claim is the one that an entry is about: the first with the identifier
/// that the entry names, or the last of the project where it names none.
pub open spec fn is_current(
    claims: Seq<JsonV>,
    project: Seq<char>,
    entry: JsonV,
    k: int,
) -> bool {
    &&& 0 <= k < claims.len()
    &&& claims[k].string("project"@) == project
    &&& match entry.get("claim_id"@) {
        Some(JsonV::Text(id)) => claims[k].string("id"@) == id && forall|n: int|
            0 <= n < k ==> !((#[trigger] claims[n]).string("project"@) == project
                && claims[n].string("id"@) == id),
        _ => forall|n: int|
            k < n < claims.len() ==> (#[trigger] claims[n]).string("project"@) != project,
    }
}

/// No claim is the one that an entry is about.
pub open spec fn has_no_claim(claims: Seq<JsonV>, project: Seq<char>, entry: JsonV) -> bool {
    forall|n: int|
        0 <= n < claims.len() ==> !((#[trigger] claims[n]).string("project"@) == project && (
        match entry.get("claim_id"@) {
            Some(JsonV::Text(id)) => claims[n].string("id"@) == id,
            _ => true,
        }))
}

/// The live state of a project under a connected runtime.
pub open spec fn watched_live(runtime: JsonV, project: Seq<char>) -> Option<JsonV> {
    if runtime.get("connected"@) == Some(JsonV::Bool(true)) {
        runtime.at("projects"@).get(project)
    } else {
        None
    }
}

/// The time since when a live state holds.
pub open spec fn since_when(live: JsonV) -> Option<Seq<char>> {
    match live.get("live_status_since"@) {
        Some(JsonV::Text(time)) => Some(time),
        Some(_) => None,
        None => match live.get("observed_at"@) {
            Some(JsonV::Text(time)) => Some(time),
            _ => None,
        },
    }
}

/// So many seconds lie between a written time and the reading of the clock.
pub open spec fn is_old(value: Option<Seq<char>>, clock: ClockV, seconds: int) -> bool {
    match value {
        Some(written) => match outside::plain_time(written) {
            Some(moment) => outside::seconds_between(clock.moment, moment) >= seconds,
            None => match outside::rfc3339_time(written) {
                Some(moment) => outside::seconds_between(clock.moment, moment) >= seconds,
                None => false,
            },
        },
        None => false,
    }
}

/// A time is as old as was asked for if and only if its age says so, for every
/// positive age; an age is never negative, and that of a time that is missing
/// or cannot be read is zero.
pub proof fn law_age_counts_seconds(value: Option<Seq<char>>, clock: ClockV, seconds: int)
    requires
        seconds > 0,
    ensures
        is_old(value, clock, seconds) <==> attention::age_at(value, clock.moment) >= seconds,
        attention::age_at(value, clock.moment) >= 0,
        value is None ==> attention::age_at(value, clock.moment) == 0,
        value is Some && outside::plain_time(value->0) is None && outside::rfc3339_time(
            value->0,
        ) is None ==> attention::age_at(value, clock.moment) == 0,
{
}

/// The effective status of a project is `need_decision` if and only if one of
/// its decisions is open; otherwise it is what it stands at, and `idle` where
/// that is no status that can be reported.
pub proof fn law_effective_status(entry: JsonV, decisions: Seq<JsonV>, project: Seq<char>)
    ensures
        ({
            let status = records::effective(entry, decisions, project);
            &&& awaits_decision(decisions, project) ==> status == "need_decision"@
            &&& status == "need_decision"@ ==> awaits_decision(decisions, project)
            &&& status == "working"@ <==> stands_at(entry, decisions, project, "working"@)
            &&& status == "blocked"@ <==> stands_at(entry, decisions, project, "blocked"@)
            &&& status == "done"@ <==> stands_at(entry, decisions, project, "done"@)
            &&& status == "need_decision"@ || status == "working"@ || status == "blocked"@
                || status == "done"@ || status == "idle"@
        }),
{
    lemma_words();
    if records::has_open(decisions, project) {
        let i = choose|i: int|
            0 <= i < decisions.len() && records::is_open(#[trigger] decisions[i], Some(project));
        assert(decisions[i].string("state"@) == "open"@);
    }
    if awaits_decision(decisions, project) {
        let i = choose|i: int|
            0 <= i < decisions.len() && (#[trigger] decisions[i]).string("state"@) == "open"@
                && decisions[i].string("project"@) == project;
        assert(records::is_open(decisions[i], Some(project)));
    }
}

/// An entry says what it was made of.
proof fn lemma_entry(wanted: Request, clock: ClockV)
    requires
        0 <= wanted.priority <= 100,
    ensures
        says(
            attention::entry_of(
                wanted.project,
                wanted.kind,
                wanted.priority,
                wanted.reason,
                wanted.actor,
                wanted.since,
                wanted.action,
                wanted.reference,
                clock,
            ),
            wanted,
            clock,
        ),
{
    lemma_words();
    let created = match wanted.since {
        Some(time) => time,
        None => clock.text,
    };
    let age = attention::age_at(Some(created), clock.moment);
    assert forall|seconds: int| seconds > 0 implies (#[trigger] is_old(
        Some(created),
        clock,
        seconds,
    ) <==> age >= seconds) by {
        law_age_counts_seconds(Some(created), clock, seconds);
    }
}

/// What one project asks for stands in the queue.
proof fn lemma_queued(
    registry: Members,
    decisions: Seq<JsonV>,
    claims: Seq<JsonV>,
    runtime: JsonV,
    clock: ClockV,
    project: Seq<char>,
    i: int,
) -> (k: int)
    requires
        registry.dom().finite(),
        registry.contains_key(project),
        0 <= i < attention::project_entries(
            project,
            registry[project],
            decisions,
            claims,
            runtime,
            clock,
        ).len(),
    ensures
        0 <= k < attention::queue_at(registry, decisions, claims, runtime, clock).len(),
        attention::queue_at(registry, decisions, claims, runtime, clock)[k]
            == attention::project_entries(
            project,
            registry[project],
            decisions,
            claims,
            runtime,
            clock,
        )[i],
{
    attention::law_what_a_project_asks_for_is_queued(
        registry,
        decisions,
        claims,
        runtime,
        clock,
        project,
        i,
    );
    let queue = attention::queue_at(registry, decisions, claims, runtime, clock);
    let wanted = attention::project_entries(
        project,
        registry[project],
        decisions,
        claims,
        runtime,
        clock,
    )[i];
    choose|k: int| 0 <= k < queue.len() && queue[k] == wanted
}

/// The live part of what a project asks for is its only part with a kind of
/// its own.
proof fn lemma_project_parts(
    project: Seq<char>,
    entry: JsonV,
    decisions: Seq<JsonV>,
    claims: Seq<JsonV>,
    runtime: JsonV,
    clock: ClockV,
)
    ensures
        ({
            let items = attention::project_entries(
                project,
                entry,
                decisions,
                claims,
                runtime,
                clock,
            );
            let status = records::effective(entry, decisions, project);
            let live = watched_live(runtime, project);
            let seen = live is Some && (status == "working"@ || status == "blocked"@);
            let since = since_when(live->0);
            &&& status != "done"@ && !seen ==> items.len() == 0
            &&& status != "done"@ && seen ==> items == attention::live_entries(
                project,
                entry,
                status,
                records::has_open(decisions, project),
                live->0,
                clock,
            )
            &&& status == "done"@ ==> items == attention::done_entries(
                project,
                entry,
                records::claim_meant(claims, project, entry.optional_string("claim_id"@)),
                clock,
            )
            &&& live is Some ==> attention::either_text(
                live->0,
                "live_status_since"@,
                "observed_at"@,
            ) == since
        }),
{
    lemma_words();
    reveal_strlit("connected");
    let items = attention::project_entries(project, entry, decisions, claims, runtime, clock);
    let done = attention::done_entries(
        project,
        entry,
        records::claim_meant(claims, project, entry.optional_string("claim_id"@)),
        clock,
    );
    assert(Seq::<JsonV>::empty() + done =~= done);
    assert(forall|part: Seq<JsonV>| #[trigger] (part + Seq::<JsonV>::empty()) =~= part);
}

/// What the live state of a watched project asks for.
proof fn lemma_live_entry(
    project: Seq<char>,
    entry: JsonV,
    decisions: Seq<JsonV>,
    live: JsonV,
    clock: ClockV,
)
    ensures
        ({
            let status = records::effective(entry, decisions, project);
            let items = attention::live_entries(
                project,
                entry,
                status,
                records::has_open(decisions, project),
                live,
                clock,
            );
            let stale = is_old(since_when(live), clock, 600);
            let online = live.get("online"@) == Some(JsonV::Bool(true));
            let blocked = live.get("live_status"@) == Some(JsonV::Text("blocked"@));
            let silent = live.get("live_status"@) == Some(JsonV::Text("idle"@)) && status
                == "working"@ && is_old(since_when(live), clock, 300);
            status == "working"@ || status == "blocked"@ ==> {
                &&& !online ==> items.len() == 1 && says(
                    items[0],
                    offline_request(project, status, entry, live),
                    clock,
                )
                &&& online && blocked ==> items.len() == 1 && says(
                    items[0],
                    blocked_request(project, live, stale),
                    clock,
                )
                &&& online && silent ==> items.len() == 1 && says(
                    items[0],
                    idle_request(project, live),
                    clock,
                )
                &&& online && !blocked && !silent ==> items.len() == 0
            }
        }),
{
    lemma_words();
    law_effective_status(entry, decisions, project);
    law_age_counts_seconds(since_when(live), clock, 600);
    law_age_counts_seconds(since_when(live), clock, 300);
    let status = records::effective(entry, decisions, project);
    let stale = is_old(since_when(live), clock, 600);
    assert(attention::either_text(live, "live_status_since"@, "observed_at"@) == since_when(
        live,
    ));
    lemma_entry(offline_request(project, status, entry, live), clock);
    lemma_entry(blocked_request(project, live, stale), clock);
    lemma_entry(idle_request(project, live), clock);
}

/// The claim that an entry is about is the one that is looked up.
proof fn lemma_current(claims: Seq<JsonV>, project: Seq<char>, entry: JsonV)
    ensures
        ({
            let found = records::claim_index(
                claims,
                project,
                entry.optional_string("claim_id"@),
            );
            &&& found is None <==> has_no_claim(claims, project, entry)
            &&& forall|k: int| #[trigger]
                is_current(claims, project, entry, k) <==> found == Some(k)
        }),
{
    match entry.optional_string("claim_id"@) {
        Some(id) => {
            let wanted = records::claim_named(project, id);
            records::lemma_first_where(claims, wanted);
            assert forall|k: int| #[trigger] is_current(
                claims,
                project,
                entry,
                k,
            ) <==> records::first_where(claims, wanted) == Some(k) by {
                if is_current(claims, project, entry, k) {
                    assert forall|n: int| 0 <= n < k implies !wanted(#[trigger] claims[n]) by {}
                    records::lemma_first_where_is(claims, wanted, k);
                }
                if records::first_where(claims, wanted) == Some(k) {
                    assert forall|n: int| 0 <= n < k implies !((#[trigger] claims[n]).string(
                        "project"@,
                    ) == project && claims[n].string("id"@) == id) by {
                        assert(!wanted(claims[n]));
                    }
                }
            }
            if records::first_where(claims, wanted) is None {
                assert forall|n: int| 0 <= n < claims.len() implies !((
                #[trigger] claims[n]).string("project"@) == project && claims[n].string("id"@)
                    == id) by {
                    assert(!wanted(claims[n]));
                }
            }
            if has_no_claim(claims, project, entry) {
                assert forall|n: int| 0 <= n < claims.len() implies !wanted(
                    #[trigger] claims[n],
                ) by {}
                records::lemma_nowhere(claims, wanted);
            }
        },
        None => {
            let wanted = records::claim_of(project);
            records::lemma_last_where(claims, wanted);
            assert forall|k: int| #[trigger] is_current(
                claims,
                project,
                entry,
                k,
            ) <==> records::last_where(claims, wanted) == Some(k) by {
                if is_current(claims, project, entry, k) {
                    assert forall|n: int| k < n < claims.len() implies !wanted(
                        #[trigger] claims[n],
                    ) by {}
                    records::lemma_last_where_is(claims, wanted, k);
                }
                if records::last_where(claims, wanted) == Some(k) {
                    assert forall|n: int| k < n < claims.len() implies (
                    #[trigger] claims[n]).string("project"@) != project by {
                        assert(!wanted(claims[n]));
                    }
                }
            }
            if records::last_where(claims, wanted) is None {
                assert forall|n: int| 0 <= n < claims.len() implies (
                #[trigger] claims[n]).string("project"@) != project by {
                    assert(!wanted(claims[n]));
                }
            }
            if has_no_claim(claims, project, entry) {
                assert forall|n: int| 0 <= n < claims.len() implies !wanted(
                    #[trigger] claims[n],
                ) by {}
                records::lemma_nowhere(claims, wanted);
            }
        },
    }
}

/// What a claimed completion asks for.
proof fn lemma_done_entry(
    project: Seq<char>,
    entry: JsonV,
    claim: Option<JsonV>,
    clock: ClockV,
)
    ensures
        ({
            let items = attention::done_entries(project, entry, claim, clock);
            let state = match claim {
                Some(value) => value.get("state"@),
                None => None,
            };
            let verified = state == Some(JsonV::Text("verified"@));
            let unverified = !(state is Some && state->0 is Text) || state == Some(
                JsonV::Text("reported"@),
            );
            &&& unverified ==> items.len() == 1 && says(
                items[0],
                unverified_request(project, entry, claim),
                clock,
            )
            &&& verified ==> items.len() == 1 && says(
                items[0],
                acceptance_request(project, claim->0),
                clock,
            )
            &&& !unverified && !verified ==> items.len() == 0
        }),
{
    lemma_words();
    lemma_entry(unverified_request(project, entry, claim), clock);
    if claim is Some {
        lemma_entry(acceptance_request(project, claim->0), clock);
    }
    assert(attention::claimed_at(claim, entry) == unverified_request(project, entry, claim).since);
}

/// The name of a status that a project stands at.
pub open spec fn standing(entry: JsonV, decisions: Seq<JsonV>, project: Seq<char>) -> Seq<char> {
    if stands_at(entry, decisions, project, "working"@) {
        "working"@
    } else {
        "blocked"@
    }
}

/// A project is at work: it stands at `working` or at `blocked`.
pub open spec fn is_at_work(entry: JsonV, decisions: Seq<JsonV>, project: Seq<char>) -> bool {
    stands_at(entry, decisions, project, "working"@) || stands_at(
        entry,
        decisions,
        project,
        "blocked"@,
    )
}

/// A commander who is blocked is noticed, whether the project stands at
/// `working` or at `blocked`: under a connected runtime, where the commander is
/// online and its live status is `blocked`, the queue asks the coordinator to
/// act, as for a stale block after ten minutes and as for an observed one
/// before.
pub proof fn law_blocked_commander_is_queued(
    registry: Members,
    decisions: Seq<JsonV>,
    claims: Seq<JsonV>,
    runtime: JsonV,
    clock: ClockV,
    project: Seq<char>,
)
    requires
        registry.dom().finite(),
        registry.contains_key(project),
        is_at_work(registry[project], decisions, project),
        watched_live(runtime, project) is Some,
        watched_live(runtime, project)->0.get("online"@) == Some(JsonV::Bool(true)),
        watched_live(runtime, project)->0.get("live_status"@) == Some(JsonV::Text("blocked"@)),
    ensures
        ({
            let queue = attention::queue_at(registry, decisions, claims, runtime, clock);
            let live = watched_live(runtime, project)->0;
            let stale = is_old(since_when(live), clock, 600);
            queue_says(queue, blocked_request(project, live, stale), clock)
        }),
{
    lemma_words();
    let entry = registry[project];
    law_effective_status(entry, decisions, project);
    lemma_project_parts(project, entry, decisions, claims, runtime, clock);
    lemma_live_entry(project, entry, decisions, watched_live(runtime, project)->0, clock);
    lemma_queued(registry, decisions, claims, runtime, clock, project, 0);
}

/// A commander who is offline while the project is at work is noticed.
pub proof fn law_offline_commander_is_queued(
    registry: Members,
    decisions: Seq<JsonV>,
    claims: Seq<JsonV>,
    runtime: JsonV,
    clock: ClockV,
    project: Seq<char>,
)
    requires
        registry.dom().finite(),
        registry.contains_key(project),
        is_at_work(registry[project], decisions, project),
        watched_live(runtime, project) is Some,
        watched_live(runtime, project)->0.get("online"@) != Some(JsonV::Bool(true)),
    ensures
        ({
            let queue = attention::queue_at(registry, decisions, claims, runtime, clock);
            let live = watched_live(runtime, project)->0;
            let entry = registry[project];
            queue_says(
                queue,
                offline_request(project, standing(entry, decisions, project), entry, live),
                clock,
            )
        }),
{
    lemma_words();
    let entry = registry[project];
    law_effective_status(entry, decisions, project);
    lemma_project_parts(project, entry, decisions, claims, runtime, clock);
    lemma_live_entry(project, entry, decisions, watched_live(runtime, project)->0, clock);
    lemma_queued(registry, decisions, claims, runtime, clock, project, 0);
}

/// A commander who does nothing for five minutes while the project stands at
/// `working` is noticed.
pub proof fn law_idle_commander_is_queued(
    registry: Members,
    decisions: Seq<JsonV>,
    claims: Seq<JsonV>,
    runtime: JsonV,
    clock: ClockV,
    project: Seq<char>,
)
    requires
        registry.dom().finite(),
        registry.contains_key(project),
        stands_at(registry[project], decisions, project, "working"@),
        watched_live(runtime, project) is Some,
        watched_live(runtime, project)->0.get("online"@) == Some(JsonV::Bool(true)),
        watched_live(runtime, project)->0.get("live_status"@) == Some(JsonV::Text("idle"@)),
        is_old(since_when(watched_live(runtime, project)->0), clock, 300),
    ensures
        queue_says(
            attention::queue_at(registry, decisions, claims, runtime, clock),
            idle_request(project, watched_live(runtime, project)->0),
            clock,
        ),
{
    lemma_words();
    let entry = registry[project];
    law_effective_status(entry, decisions, project);
    lemma_project_parts(project, entry, decisions, claims, runtime, clock);
    lemma_live_entry(project, entry, decisions, watched_live(runtime, project)->0, clock);
    lemma_queued(registry, decisions, claims, runtime, clock, project, 0);
}

/// A project that stands at `done` waits for machine verification of the claim
/// that its entry is about, or where there is none for a claim.
pub proof fn law_unverified_completion_is_queued(
    registry: Members,
    decisions: Seq<JsonV>,
    claims: Seq<JsonV>,
    runtime: JsonV,
    clock: ClockV,
    project: Seq<char>,
)
    requires
        registry.dom().finite(),
        registry.contains_key(project),
        stands_at(registry[project], decisions, project, "done"@),
    ensures
        ({
            let queue = attention::queue_at(registry, decisions, claims, runtime, clock);
            let entry = registry[project];
            &&& has_no_claim(claims, project, entry) ==> queue_says(
                queue,
                unverified_request(project, entry, None),
                clock,
            )
            &&& forall|k: int| #[trigger]
                is_current(claims, project, entry, k) && (claims[k].get("state"@) == Some(
                    JsonV::Text("reported"@),
                ) || !(claims[k].at("state"@) is Text)) ==> queue_says(
                    queue,
                    unverified_request(project, entry, Some(claims[k])),
                    clock,
                )
        }),
{
    lemma_words();
    let entry = registry[project];
    law_effective_status(entry, decisions, project);
    lemma_project_parts(project, entry, decisions, claims, runtime, clock);
    lemma_current(claims, project, entry);
    let claim = records::claim_meant(claims, project, entry.optional_string("claim_id"@));
    lemma_done_entry(project, entry, claim, clock);
    if attention::done_entries(project, entry, claim, clock).len() > 0 {
        lemma_queued(registry, decisions, claims, runtime, clock, project, 0);
    }
}

/// A project that stands at `done` with a verified claim waits for the user.
pub proof fn law_verified_completion_is_queued(
    registry: Members,
    decisions: Seq<JsonV>,
    claims: Seq<JsonV>,
    runtime: JsonV,
    clock: ClockV,
    project: Seq<char>,
    k: int,
)
    requires
        registry.dom().finite(),
        registry.contains_key(project),
        stands_at(registry[project], decisions, project, "done"@),
        is_current(claims, project, registry[project], k),
        claims[k].get("state"@) == Some(JsonV::Text("verified"@)),
    ensures
        queue_says(
            attention::queue_at(registry, decisions, claims, runtime, clock),
            acceptance_request(project, claims[k]),
            clock,
        ),
{
    lemma_words();
    let entry = registry[project];
    law_effective_status(entry, decisions, project);
    lemma_project_parts(project, entry, decisions, claims, runtime, clock);
    lemma_current(claims, project, entry);
    lemma_done_entry(project, entry, Some(claims[k]), clock);
    lemma_queued(registry, decisions, claims, runtime, clock, project, 0);
}

/// Every open decision asks for the user, in the words of its question.
pub proof fn law_decision_asks_the_user(
    registry: Members,
    decisions: Seq<JsonV>,
    claims: Seq<JsonV>,
    runtime: JsonV,
    clock: ClockV,
    i: int,
)
    requires
        0 <= i < decisions.len(),
        decisions[i].get("state"@) == Some(JsonV::Text("open"@)),
    ensures
        queue_says(
            attention::queue_at(registry, decisions, claims, runtime, clock),
            decision_request(decisions[i]),
            clock,
        ),
{
    attention::law_open_decision_is_queued(registry, decisions, claims, runtime, clock, i);
    lemma_decision_entry(decisions[i], clock);
    let queue = attention::queue_at(registry, decisions, claims, runtime, clock);
    let made = attention::decision_entry(decisions[i], clock);
    let k = choose|k: int| 0 <= k < queue.len() && queue[k] == made;
    assert(says(queue[k], decision_request(decisions[i]), clock));
}

proof fn lemma_decision_entry(decision: JsonV, clock: ClockV)
    ensures
        says(
            attention::decision_entry(decision, clock),
            decision_request(decision),
            clock,
        ),
{
    lemma_entry(decision_request(decision), clock);
}

proof fn lemma_lost_entry(runtime: JsonV, registry: Members, clock: ClockV)
    ensures
        ({
            let items = attention::runtime_entries(runtime, registry, clock);
            if is_lost(runtime) && registry.dom() != Set::<Seq<char>>::empty() {
                items.len() == 1 && says(items[0], lost_request(runtime), clock)
            } else {
                items.len() == 0
            }
        }),
{
    reveal_strlit("connected");
    lemma_entry(lost_request(runtime), clock);
    if registry.dom() == Set::<Seq<char>>::empty() {
        assert(registry =~= Map::empty());
    }
    match runtime {
        JsonV::Object(members) => {
            if members.dom() == Set::<Seq<char>>::empty() {
                assert(members =~= Map::empty());
            }
        },
        _ => {},
    }
}

/// The runtime is known, and does not say that it is connected.
pub open spec fn is_lost(runtime: JsonV) -> bool {
    &&& runtime is Object
    &&& runtime->Object_0.dom() != Set::<Seq<char>>::empty()
    &&& runtime.get("connected"@) != Some(JsonV::Bool(true))
}

/// A lost connection is noticed where there are projects.
pub proof fn law_lost_connection_is_queued(
    registry: Members,
    decisions: Seq<JsonV>,
    claims: Seq<JsonV>,
    runtime: JsonV,
    clock: ClockV,
    project: Seq<char>,
)
    requires
        registry.contains_key(project),
        is_lost(runtime),
    ensures
        queue_says(
            attention::queue_at(registry, decisions, claims, runtime, clock),
            lost_request(runtime),
            clock,
        ),
{
    broadcast use vstd::seq_lib::group_to_multiset_ensures;

    assert(registry.dom().contains(project));
    lemma_lost_entry(runtime, registry, clock);
    attention::law_queue_holds_what_was_collected(registry, decisions, claims, runtime, clock);
    let all = attention::collected(registry, decisions, claims, runtime, clock);
    let first = attention::decision_entries(decisions, clock);
    let made = attention::runtime_entries(runtime, registry, clock)[0];
    assert(all[first.len() as int] == made);
    assert(all.contains(made));
    let queue = attention::queue_at(registry, decisions, claims, runtime, clock);
    assert(queue.to_multiset().count(made) > 0);
    let k = choose|k: int| 0 <= k < queue.len() && queue[k] == made;
    assert(says(queue[k], lost_request(runtime), clock));
}

/// What the projects ask for is asked for by one of them.
proof fn lemma_registry_origin(
    projects: Seq<Seq<char>>,
    registry: Members,
    decisions: Seq<JsonV>,
    claims: Seq<JsonV>,
    runtime: JsonV,
    clock: ClockV,
    i: int,
) -> (from: (int, int))
    requires
        0 <= i < attention::registry_entries(
            projects,
            registry,
            decisions,
            claims,
            runtime,
            clock,
        ).len(),
    ensures
        0 <= from.0 < projects.len(),
        0 <= from.1 < attention::project_entries(
            projects[from.0],
            registry[projects[from.0]],
            decisions,
            claims,
            runtime,
            clock,
        ).len(),
        attention::registry_entries(projects, registry, decisions, claims, runtime, clock)[i]
            == attention::project_entries(
            projects[from.0],
            registry[projects[from.0]],
            decisions,
            claims,
            runtime,
            clock,
        )[from.1],
    decreases projects.len(),
{
    let fewer = projects.drop_last();
    let rest = attention::registry_entries(fewer, registry, decisions, claims, runtime, clock);
    if i < rest.len() {
        lemma_registry_origin(fewer, registry, decisions, claims, runtime, clock, i)
    } else {
        (projects.len() - 1, i - rest.len())
    }
}

/// A reason for which a project is in the queue.
pub open spec fn project_reason(
    item: JsonV,
    project: Seq<char>,
    entry: JsonV,
    decisions: Seq<JsonV>,
    claims: Seq<JsonV>,
    runtime: JsonV,
    clock: ClockV,
) -> bool {
    let live = watched_live(runtime, project);
    let online = live->0.get("online"@) == Some(JsonV::Bool(true));
    let stale = is_old(since_when(live->0), clock, 600);
    ||| is_at_work(entry, decisions, project) && live is Some && !online && says(
        item,
        offline_request(project, standing(entry, decisions, project), entry, live->0),
        clock,
    )
    ||| is_at_work(entry, decisions, project) && live is Some && online && live->0.get(
        "live_status"@,
    ) == Some(JsonV::Text("blocked"@)) && says(
        item,
        blocked_request(project, live->0, stale),
        clock,
    )
    ||| stands_at(entry, decisions, project, "working"@) && live is Some && online
        && live->0.get("live_status"@) == Some(JsonV::Text("idle"@)) && is_old(
        since_when(live->0),
        clock,
        300,
    ) && says(item, idle_request(project, live->0), clock)
    ||| stands_at(entry, decisions, project, "done"@) && has_no_claim(claims, project, entry)
        && says(item, unverified_request(project, entry, None), clock)
    ||| stands_at(entry, decisions, project, "done"@) && exists|k: int| #[trigger]
        is_current(claims, project, entry, k) && (claims[k].get("state"@) == Some(
            JsonV::Text("reported"@),
        ) || !(claims[k].at("state"@) is Text)) && says(
            item,
            unverified_request(project, entry, Some(claims[k])),
            clock,
        )
    ||| stands_at(entry, decisions, project, "done"@) && exists|k: int| #[trigger]
        is_current(claims, project, entry, k) && claims[k].get("state"@) == Some(
            JsonV::Text("verified"@),
        ) && says(item, acceptance_request(project, claims[k]), clock)
}

/// What a project asks for has a reason.
proof fn lemma_project_reason(
    project: Seq<char>,
    entry: JsonV,
    decisions: Seq<JsonV>,
    claims: Seq<JsonV>,
    runtime: JsonV,
    clock: ClockV,
)
    ensures
        ({
            let items = attention::project_entries(
                project,
                entry,
                decisions,
                claims,
                runtime,
                clock,
            );
            &&& items.len() <= 1
            &&& items.len() == 1 ==> project_reason(
                items[0],
                project,
                entry,
                decisions,
                claims,
                runtime,
                clock,
            )
        }),
{
    lemma_words();
    law_effective_status(entry, decisions, project);
    lemma_project_parts(project, entry, decisions, claims, runtime, clock);
    let status = records::effective(entry, decisions, project);
    if status == "done"@ {
        lemma_current(claims, project, entry);
        let found = records::claim_index(claims, project, entry.optional_string("claim_id"@));
        let claim = records::claim_meant(claims, project, entry.optional_string("claim_id"@));
        lemma_done_entry(project, entry, claim, clock);
        if found is Some {
            assert(is_current(claims, project, entry, found->0));
        }
    } else {
        match watched_live(runtime, project) {
            Some(live) => lemma_live_entry(project, entry, decisions, live, clock),
            None => {},
        }
    }
}

/// Nothing is in the queue without a reason: every entry is that of an open
/// decision, of a lost connection, or of what a registered project needs.
pub proof fn law_nothing_is_queued_without_reason(
    registry: Members,
    decisions: Seq<JsonV>,
    claims: Seq<JsonV>,
    runtime: JsonV,
    clock: ClockV,
    i: int,
)
    requires
        registry.dom().finite(),
        0 <= i < attention::queue_at(registry, decisions, claims, runtime, clock).len(),
    ensures
        ({
            let item = attention::queue_at(registry, decisions, claims, runtime, clock)[i];
            ||| exists|k: int|
                0 <= k < decisions.len() && (#[trigger] decisions[k]).get("state"@) == Some(
                    JsonV::Text("open"@),
                ) && says(item, decision_request(decisions[k]), clock)
            ||| is_lost(runtime) && registry.dom() != Set::<Seq<char>>::empty() && says(
                item,
                lost_request(runtime),
                clock,
            )
            ||| exists|project: Seq<char>| #[trigger]
                registry.contains_key(project) && project_reason(
                    item,
                    project,
                    registry[project],
                    decisions,
                    claims,
                    runtime,
                    clock,
                )
        }),
{
    broadcast use vstd::seq_lib::group_to_multiset_ensures;

    lemma_words();
    let queue = attention::queue_at(registry, decisions, claims, runtime, clock);
    let all = attention::collected(registry, decisions, claims, runtime, clock);
    attention::law_queue_holds_what_was_collected(registry, decisions, claims, runtime, clock);
    assert(queue.contains(queue[i]));
    assert(queue.to_multiset().count(queue[i]) > 0);
    assert(all.contains(queue[i]));
    let k = choose|k: int| 0 <= k < all.len() && all[k] == queue[i];
    let first = attention::decision_entries(decisions, clock);
    let second = attention::runtime_entries(runtime, registry, clock);
    let order = json::name_order(registry);
    let third = attention::registry_entries(order, registry, decisions, claims, runtime, clock);
    lemma_lost_entry(runtime, registry, clock);
    if k < first.len() {
        let wanted = records::open_ones(None);
        let opened = decisions.filter(wanted);
        assert(all[k] == attention::decision_entry(opened[k], clock));
        decisions.lemma_filter_pred(wanted, k);
        assert(opened.contains(opened[k]));
        decisions.lemma_filter_contains_rev(wanted, opened[k]);
        let n = choose|n: int| 0 <= n < decisions.len() && decisions[n] == opened[k];
        lemma_decision_entry(decisions[n], clock);
        assert(decisions[n].get("state"@) == Some(JsonV::Text("open"@)));
    } else if k < first.len() + second.len() {
        assert(all[k] == second[k - first.len()]);
    } else {
        let m = k - first.len() - second.len();
        assert(all[k] == third[m]);
        let (n, at) = lemma_registry_origin(
            order,
            registry,
            decisions,
            claims,
            runtime,
            clock,
            m,
        );
        json::lemma_name_order(registry);
        let project = order[n];
        assert(order.contains(project));
        assert(registry.contains_key(project));
        lemma_project_reason(project, registry[project], decisions, claims, runtime, clock);
    }
}

/// The queue is in the order of urgency: higher priorities first, among equal
/// ones what waits longest, and then by project.
pub proof fn law_queue_puts_urgent_first(
    registry: Members,
    decisions: Seq<JsonV>,
    claims: Seq<JsonV>,
    runtime: JsonV,
    clock: ClockV,
    i: int,
    j: int,
)
    requires
        0 <= i < j < attention::queue_at(registry, decisions, claims, runtime, clock).len(),
    ensures
        ({
            let queue = attention::queue_at(registry, decisions, claims, runtime, clock);
            let number = |item: JsonV, name: Seq<char>|
                match item.at(name).as_i64() {
                    Some(n) => n,
                    None => 0,
                };
            let (p, q) = (number(queue[i], "priority"@), number(queue[j], "priority"@));
            let (a, b) = (number(queue[i], "age_seconds"@), number(queue[j], "age_seconds"@));
            &&& p >= q
            &&& p == q ==> a >= b
            &&& p == q && a == b ==> !text::before(
                queue[j].string("project"@),
                queue[i].string("project"@),
            )
            &&& p == q && a == b && queue[i].string("project"@) == queue[j].string("project"@)
                ==> !text::before(queue[j].string("kind"@), queue[i].string("kind"@))
        }),
{
    attention::law_queue_is_in_order(registry, decisions, claims, runtime, clock);
    let queue = attention::queue_at(registry, decisions, claims, runtime, clock);
    assert(!attention::urgency()(queue[j], queue[i]));
    text::lemma_before_irreflexive(queue[i].string("project"@));
}

/// How many values are wanted.
pub open spec fn tally(values: Seq<JsonV>, wanted: spec_fn(JsonV) -> bool) -> nat
    decreases values.len(),
{
    if values.len() == 0 {
        0
    } else {
        tally(values.drop_last(), wanted) + (if wanted(values.last()) {
            1nat
        } else {
            0nat
        })
    }
}

proof fn lemma_tally_joined(left: Seq<JsonV>, right: Seq<JsonV>, wanted: spec_fn(JsonV) -> bool)
    ensures
        tally(left + right, wanted) == tally(left, wanted) + tally(right, wanted),
    decreases right.len(),
{
    if right.len() == 0 {
        assert(left + right =~= left);
    } else {
        lemma_tally_joined(left, right.drop_last(), wanted);
        assert((left + right).drop_last() =~= left + right.drop_last());
        assert((left + right).last() == right.last());
    }
}

proof fn lemma_tally_arranged(
    values: Seq<JsonV>,
    ahead: spec_fn(JsonV, JsonV) -> bool,
    wanted: spec_fn(JsonV) -> bool,
)
    ensures
        tally(order::arranged(values, ahead), wanted) == tally(values, wanted),
    decreases values.len(),
{
    if values.len() > 0 {
        let last = values.last();
        lemma_tally_arranged(values.drop_last(), ahead, wanted);
        let rest = order::arranged(values.drop_last(), ahead);
        let at = order::lemma_placed_somewhere(rest, last, ahead);
        let (head, tail) = (rest.take(at), rest.skip(at));
        assert(rest =~= head + tail);
        assert(rest.insert(at, last) =~= head.push(last) + tail);
        assert(head.push(last) =~= head + seq![last]);
        lemma_tally_joined(head, tail, wanted);
        lemma_tally_joined(head.push(last), tail, wanted);
        assert(head.push(last).drop_last() =~= head);
        assert(values =~= values.drop_last().push(last));
    }
}

/// Where nothing is wanted, nothing is counted.
proof fn lemma_tally_none(values: Seq<JsonV>, wanted: spec_fn(JsonV) -> bool)
    requires
        forall|i: int| 0 <= i < values.len() ==> !wanted(#[trigger] values[i]),
    ensures
        tally(values, wanted) == 0,
    decreases values.len(),
{
    if values.len() > 0 {
        assert(!wanted(values[values.len() - 1]));
        assert forall|i: int| 0 <= i < values.drop_last().len() implies !wanted(
            #[trigger] values.drop_last()[i],
        ) by {
            assert(!wanted(values[i]));
        }
        lemma_tally_none(values.drop_last(), wanted);
    }
}

/// No more are wanted than there are.
proof fn lemma_tally_most(values: Seq<JsonV>, wanted: spec_fn(JsonV) -> bool)
    ensures
        tally(values, wanted) <= values.len(),
    decreases values.len(),
{
    if values.len() > 0 {
        lemma_tally_most(values.drop_last(), wanted);
    }
}

/// A decision that is open.
pub open spec fn is_unanswered() -> spec_fn(JsonV) -> bool {
    |decision: JsonV| decision.get("state"@) == Some(JsonV::Text("open"@))
}

/// An entry of a kind.
pub open spec fn of_kind(kind: Seq<char>) -> spec_fn(JsonV) -> bool {
    |item: JsonV| item.string("kind"@) == kind
}

/// An entry about a project, whatever it asks for but a decision.
pub open spec fn about_project(project: Seq<char>) -> spec_fn(JsonV) -> bool {
    |item: JsonV|
        item.string("project"@) == project && item.string("kind"@) != "decision_required"@
            && item.string("kind"@) != "runtime_disconnected"@
}

proof fn lemma_decision_tally(decisions: Seq<JsonV>, clock: ClockV)
    ensures
        tally(
            attention::decision_entries(decisions, clock),
            of_kind("decision_required"@),
        ) == tally(decisions, is_unanswered()),
        attention::decision_entries(decisions, clock).len() == tally(decisions, is_unanswered()),
    decreases decisions.len(),
{
    lemma_words();
    reveal(Seq::filter);
    if decisions.len() > 0 {
        let rest = decisions.drop_last();
        lemma_decision_tally(rest, clock);
        let made = attention::decision_entries(rest, clock);
        let all = attention::decision_entries(decisions, clock);
        lemma_decision_entry(decisions.last(), clock);
        if is_unanswered()(decisions.last()) {
            assert(records::open_ones(None)(decisions.last()));
            assert(all =~= made.push(attention::decision_entry(decisions.last(), clock)));
            assert(all.drop_last() =~= made);
        } else {
            assert(!records::open_ones(None)(decisions.last()));
            assert(all =~= made);
        }
    }
}

proof fn lemma_registry_tally(
    projects: Seq<Seq<char>>,
    registry: Members,
    decisions: Seq<JsonV>,
    claims: Seq<JsonV>,
    runtime: JsonV,
    clock: ClockV,
    project: Seq<char>,
)
    requires
        json::increasing(projects),
    ensures
        ({
            let items = attention::registry_entries(
                projects,
                registry,
                decisions,
                claims,
                runtime,
                clock,
            );
            &&& tally(items, about_project(project)) <= 1
            &&& !projects.contains(project) ==> tally(items, about_project(project)) == 0
            &&& tally(items, of_kind("decision_required"@)) == 0
            &&& tally(items, of_kind("runtime_disconnected"@)) == 0
        }),
    decreases projects.len(),
{
    lemma_words();
    if projects.len() > 0 {
        let fewer = projects.drop_last();
        let last = projects.last();
        lemma_registry_tally(fewer, registry, decisions, claims, runtime, clock, project);
        lemma_project_reason(last, registry[last], decisions, claims, runtime, clock);
        let rest = attention::registry_entries(
            fewer,
            registry,
            decisions,
            claims,
            runtime,
            clock,
        );
        let own = attention::project_entries(
            last,
            registry[last],
            decisions,
            claims,
            runtime,
            clock,
        );
        lemma_tally_joined(rest, own, about_project(project));
        lemma_tally_joined(rest, own, of_kind("decision_required"@));
        lemma_tally_joined(rest, own, of_kind("runtime_disconnected"@));
        lemma_tally_most(own, about_project(project));
        assert forall|i: int| 0 <= i < own.len() implies !of_kind("decision_required"@)(
            #[trigger] own[i],
        ) && !of_kind("runtime_disconnected"@)(own[i]) && own[i].string("project"@) == last by {
            assert(i == 0);
        }
        lemma_tally_none(own, of_kind("decision_required"@));
        lemma_tally_none(own, of_kind("runtime_disconnected"@));
        if last == project {
            if fewer.contains(project) {
                let n = choose|n: int| 0 <= n < fewer.len() && fewer[n] == project;
                assert(projects[n] == fewer[n]);
                text::lemma_before_irreflexive(project);
                assert(text::before(projects[n], projects[projects.len() - 1]));
            }
        } else {
            assert forall|i: int| 0 <= i < own.len() implies !about_project(project)(
                #[trigger] own[i],
            ) by {}
            lemma_tally_none(own, about_project(project));
            if fewer.contains(project) {
                let n = choose|n: int| 0 <= n < fewer.len() && fewer[n] == project;
                assert(projects[n] == project);
            }
        }
        if !projects.contains(project) {
            assert(projects[projects.len() - 1] == last);
            assert forall|n: int| 0 <= n < fewer.len() implies fewer[n] != project by {
                assert(projects[n] == fewer[n]);
            }
        }
    }
}

/// Nothing is queued twice: there are as many requests for a decision as open
/// decisions, at most one about the connection, and at most one about each
/// project besides.
pub proof fn law_queue_holds_each_once(
    registry: Members,
    decisions: Seq<JsonV>,
    claims: Seq<JsonV>,
    runtime: JsonV,
    clock: ClockV,
    project: Seq<char>,
)
    requires
        registry.dom().finite(),
    ensures
        ({
            let queue = attention::queue_at(registry, decisions, claims, runtime, clock);
            &&& tally(queue, of_kind("decision_required"@)) == tally(decisions, is_unanswered())
            &&& tally(queue, of_kind("runtime_disconnected"@)) <= 1
            &&& tally(queue, about_project(project)) <= 1
        }),
{
    lemma_words();
    json::lemma_name_order(registry);
    let order = json::name_order(registry);
    let all = attention::collected(registry, decisions, claims, runtime, clock);
    let first = attention::decision_entries(decisions, clock);
    let second = attention::runtime_entries(runtime, registry, clock);
    let third = attention::registry_entries(order, registry, decisions, claims, runtime, clock);
    lemma_decision_tally(decisions, clock);
    lemma_lost_entry(runtime, registry, clock);
    lemma_registry_tally(order, registry, decisions, claims, runtime, clock, project);
    let kinds = seq![
        of_kind("decision_required"@),
        of_kind("runtime_disconnected"@),
        about_project(project),
    ];
    assert forall|n: int| 0 <= n < 3 implies #[trigger] tally(
        attention::queue_at(registry, decisions, claims, runtime, clock),
        kinds[n],
    ) == tally(first, kinds[n]) + tally(second, kinds[n]) + tally(third, kinds[n]) by {
        lemma_tally_arranged(all, attention::urgency(), kinds[n]);
        lemma_tally_joined(first, second, kinds[n]);
        lemma_tally_joined(first + second, third, kinds[n]);
    }
    let queue = attention::queue_at(registry, decisions, claims, runtime, clock);
    assert(tally(queue, kinds[0]) == tally(first, kinds[0]) + tally(second, kinds[0]) + tally(
        third,
        kinds[0],
    ));
    assert(tally(queue, kinds[1]) == tally(first, kinds[1]) + tally(second, kinds[1]) + tally(
        third,
        kinds[1],
    ));
    assert(tally(queue, kinds[2]) == tally(first, kinds[2]) + tally(second, kinds[2]) + tally(
        third,
        kinds[2],
    ));
    let opened = decisions.filter(records::open_ones(None));
    assert forall|i: int| 0 <= i < first.len() implies !kinds[1](#[trigger] first[i])
        && !kinds[2](first[i]) by {
        assert(first[i] == attention::decision_entry(opened[i], clock));
        lemma_decision_entry(opened[i], clock);
    }
    lemma_tally_none(first, kinds[1]);
    lemma_tally_none(first, kinds[2]);
    lemma_tally_most(second, kinds[1]);
    assert forall|i: int| 0 <= i < second.len() implies !kinds[0](#[trigger] second[i])
        && !kinds[2](second[i]) by {}
    lemma_tally_none(second, kinds[0]);
    lemma_tally_none(second, kinds[2]);
}

} // verus!
