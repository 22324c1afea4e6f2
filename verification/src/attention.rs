//! The attention queue: what needs a human now, ordered by how much an
//! intervention would set free. It is a projection of registry, decisions,
//! claims and runtime, and of nothing else but the clock.
use vstd::prelude::*;
use crate::json::{optional_string, string, string_is, Json, JsonV, Members, Object};
use crate::json;
use crate::order;
use crate::outside::{elapsed_seconds, local_moment, now, parse_plain_time, parse_rfc3339_time, Moment};
use crate::outside;
use crate::records::{effective_status, latest_claim, open_decisions};
use crate::records;
use crate::text;
use crate::text::{cat3, cat4, cat5, precedes, same};

verus! {

/// A reading of the clock: the time as it is written into documents, and the
/// point in time that ages are measured from.
pub struct Clock {
    pub text: String,
    pub moment: Moment,
}

/// The model of a reading of the clock.
pub struct ClockV {
    pub text: Seq<char>,
    pub moment: (int, int),
}

impl Clock {
    pub open spec fn view(&self) -> ClockV {
        ClockV { text: self.text@, moment: self.moment@ }
    }

    /// Reads the clock. The text can be read as a time again.
    pub fn read() -> (r: Clock)
        ensures
            outside::plain_time(r@.text) is Some,
    {
        Clock { text: now(), moment: local_moment() }
    }
}

/// The point in time that a text names: the plain form first, then RFC 3339.
pub open spec fn moment_of(value: Seq<char>) -> Option<(int, int)> {
    match outside::plain_time(value) {
        Some(moment) => Some(moment),
        None => outside::rfc3339_time(value),
    }
}

/// How many whole seconds ago a written time was; zero where it is missing,
/// unreadable or in the future.
pub open spec fn age_at(value: Option<Seq<char>>, moment: (int, int)) -> int {
    match value {
        Some(text) => match moment_of(text) {
            Some(then_moment) => {
                let seconds = outside::seconds_between(moment, then_moment);
                if seconds < 0 {
                    0
                } else {
                    seconds
                }
            },
            None => 0,
        },
        None => 0,
    }
}

/// How many whole seconds before `moment` a written time was.
pub fn age_seconds_at(value: Option<&str>, moment: Moment) -> (r: i64)
    ensures
        r as int == age_at(text::opt_text(value), moment@),
        r >= 0,
{
    match value {
        Some(written) => {
            let parsed = match parse_plain_time(written) {
                Some(time) => Some(time),
                None => parse_rfc3339_time(written),
            };
            match parsed {
                Some(time) => {
                    let seconds: i64 = elapsed_seconds(moment, time);
                    if seconds < 0 {
                        0
                    } else {
                        seconds
                    }
                },
                None => 0,
            }
        },
        None => 0,
    }
}

/// How many whole seconds ago a written time was, by the local clock.
pub fn age_seconds(value: Option<&str>) -> (r: i64)
    ensures
        exists|moment: (int, int)| r as int == #[trigger] age_at(text::opt_text(value), moment),
        r >= 0,
        value is None ==> r == 0,
{
    let moment = local_moment();
    age_seconds_at(value, moment)
}

/// One entry of the queue.
pub open spec fn entry_of(
    project: Seq<char>,
    kind: Seq<char>,
    priority: int,
    reason: Seq<char>,
    actor: Seq<char>,
    created_at: Option<Seq<char>>,
    action: Seq<char>,
    reference: Option<Seq<char>>,
    clock: ClockV,
) -> JsonV {
    let created = match created_at {
        Some(written) => written,
        None => clock.text,
    };
    let subject = match reference {
        Some(id) => id,
        None => project,
    };
    JsonV::Object(
        map![
            "id"@ => JsonV::Text(kind + ":"@ + project + ":"@ + subject),
            "project"@ => JsonV::Text(project),
            "kind"@ => JsonV::Text(kind),
            "priority"@ => JsonV::Int(priority),
            "reason"@ => JsonV::Text(reason),
            "required_actor"@ => JsonV::Text(actor),
            "created_at"@ => JsonV::Text(created),
            "age_seconds"@ => JsonV::Int(age_at(Some(created), clock.moment)),
            "action"@ => JsonV::Text(action),
            "reference_id"@ => json::text_or_null(reference),
        ],
    )
}

fn attention(
    project: &str,
    kind: &str,
    priority: i64,
    reason: &str,
    actor: &str,
    created_at: Option<&str>,
    action: &str,
    reference: Option<&str>,
    clock: &Clock,
) -> (r: Json)
    ensures
        r@ == entry_of(
            project@,
            kind@,
            priority as int,
            reason@,
            actor@,
            text::opt_text(created_at),
            action@,
            text::opt_text(reference),
            clock@,
        ),
{
    let created: &str = match created_at {
        Some(written) => written,
        None => clock.text.as_str(),
    };
    let subject: &str = match reference {
        Some(id) => id,
        None => project,
    };
    let mut object = Object::new();
    object.put("id", Json::Text(cat5(kind, ":", project, ":", subject)));
    object.put("project", Json::text(project));
    object.put("kind", Json::text(kind));
    object.put("priority", Json::integer(priority));
    object.put("reason", Json::text(reason));
    object.put("required_actor", Json::text(actor));
    object.put("created_at", Json::text(created));
    object.put("age_seconds", Json::integer(age_seconds_at(Some(created), clock.moment)));
    object.put("action", Json::text(action));
    object.put("reference_id", Json::optional(reference));
    Json::Object(object)
}

/// An open decision asks for the user.
pub open spec fn decision_entry(decision: JsonV, clock: ClockV) -> JsonV {
    let id = decision.string("id"@);
    let question = match decision.optional_string("question"@) {
        Some(question) => question,
        None => "需要用户拍板"@,
    };
    entry_of(
        decision.string("project"@),
        "decision_required"@,
        100,
        question,
        "user"@,
        decision.optional_string("created_at"@),
        "fleet resolve "@ + id + " <答案>"@,
        Some(id),
        clock,
    )
}

pub open spec fn decision_entries(decisions: Seq<JsonV>, clock: ClockV) -> Seq<JsonV> {
    decisions.filter(records::open_ones(None)).map_values(|d: JsonV| decision_entry(d, clock))
}

/// The runtime is known and says that it is not connected.
pub open spec fn is_disconnected(runtime: JsonV, registry: Members) -> bool {
    &&& runtime.as_object() is Some
    &&& runtime.as_object()->0 != Map::<Seq<char>, JsonV>::empty()
    &&& !runtime.flag("connected"@, false)
    &&& registry != Map::<Seq<char>, JsonV>::empty()
}

pub open spec fn runtime_entries(runtime: JsonV, registry: Members, clock: ClockV) -> Seq<JsonV> {
    if is_disconnected(runtime, registry) {
        let reason = match runtime.optional_string("error"@) {
            Some(error) => error,
            None => "Herdr 实时状态连接中断"@,
        };
        seq![
            entry_of(
                "*"@,
                "runtime_disconnected"@,
                95,
                reason,
                "coordinator"@,
                runtime.optional_string("updated_at"@),
                "fleet plugin-reconcile"@,
                None,
                clock,
            ),
        ]
    } else {
        Seq::empty()
    }
}

/// The first of two members that is there, where it is a text.
pub open spec fn either_text(value: JsonV, name: Seq<char>, other: Seq<char>) -> Option<Seq<char>> {
    let found = match value.get(name) {
        Some(member) => Some(member),
        None => value.get(other),
    };
    match found {
        Some(member) => member.as_text(),
        None => None,
    }
}

fn either<'a>(value: &'a Json, name: &str, other: &str) -> (r: Option<&'a str>)
    ensures
        text::opt_text(r) == either_text(value@, name@, other@),
{
    let found = match value.get(name) {
        Some(member) => Some(member),
        None => value.get(other),
    };
    match found {
        Some(member) => member.as_str(),
        None => None,
    }
}

fn member_text<'a>(value: &'a Json, name: &str) -> (r: Option<&'a str>)
    ensures
        text::opt_text(r) == value@.optional_string(name@),
{
    match value.get(name) {
        Some(member) => member.as_str(),
        None => None,
    }
}

/// What the live state of a commander asks for, of a project with this status.
pub open spec fn live_entries(
    project: Seq<char>,
    entry: JsonV,
    status: Seq<char>,
    has_decision: bool,
    live: JsonV,
    clock: ClockV,
) -> Seq<JsonV> {
    let since = either_text(live, "live_status_since"@, "observed_at"@);
    let age = age_at(since, clock.moment);
    if !live.flag("online"@, false) {
        seq![
            entry_of(
                project,
                "commander_offline"@,
                88,
                "项目仍标记为 "@ + status + "，但机长 "@ + entry.string("commander"@) + " 已离线"@,
                "coordinator"@,
                since,
                "fleet route "@ + project + " <恢复或重新指派指令>"@,
                None,
                clock,
            ),
        ]
    } else if live.string("live_status"@) == "blocked"@ && !has_decision {
        let stale = age >= 600;
        seq![
            entry_of(
                project,
                if stale { "stale_blocked"@ } else { "observed_blocked"@ },
                if stale { 90 } else { 82 },
                if stale {
                    "机长持续阻塞超过 10 分钟，且尚未创建正式决策"@
                } else {
                    "机长实时状态为 blocked，但尚未创建正式决策"@
                },
                "coordinator"@,
                since,
                "fleet route "@ + project + " 请说明阻塞原因；需要用户拍板时运行 fleet ask"@,
                None,
                clock,
            ),
        ]
    } else if status == "working"@ && live.string("live_status"@) == "idle"@ && age >= 300 {
        seq![
            entry_of(
                project,
                "project_idle_mismatch"@,
                52,
                "项目仍标记 working，但机长已空闲超过 5 分钟"@,
                "coordinator"@,
                since,
                "fleet route "@ + project + " 请汇报当前项目状态"@,
                None,
                clock,
            ),
        ]
    } else {
        Seq::empty()
    }
}

fn live_attention(
    project: &str,
    entry: &Json,
    status: &str,
    has_decision: bool,
    live: &Json,
    clock: &Clock,
) -> (r: Option<Json>)
    ensures
        match r {
            Some(item) => live_entries(project@, entry@, status@, has_decision, live@, clock@)
                == seq![item@],
            None => live_entries(project@, entry@, status@, has_decision, live@, clock@)
                == Seq::<JsonV>::empty(),
        },
{
    let since = either(live, "live_status_since", "observed_at");
    if !live.flag("online", false) {
        let reason = cat5(
            "项目仍标记为 ",
            status,
            "，但机长 ",
            string(entry, "commander").as_str(),
            " 已离线",
        );
        let action = cat3("fleet route ", project, " <恢复或重新指派指令>");
        Some(
            attention(
                project,
                "commander_offline",
                88,
                reason.as_str(),
                "coordinator",
                since,
                action.as_str(),
                None,
                clock,
            ),
        )
    } else if string_is(live, "live_status", "blocked") && !has_decision {
        let stale = age_seconds_at(since, clock.moment) >= 600;
        let action = cat3(
            "fleet route ",
            project,
            " 请说明阻塞原因；需要用户拍板时运行 fleet ask",
        );
        Some(
            attention(
                project,
                if stale { "stale_blocked" } else { "observed_blocked" },
                if stale { 90 } else { 82 },
                if stale {
                    "机长持续阻塞超过 10 分钟，且尚未创建正式决策"
                } else {
                    "机长实时状态为 blocked，但尚未创建正式决策"
                },
                "coordinator",
                since,
                action.as_str(),
                None,
                clock,
            ),
        )
    } else if same(status, "working") && string_is(live, "live_status", "idle") && age_seconds_at(
        since,
        clock.moment,
    ) >= 300 {
        let action = cat3("fleet route ", project, " 请汇报当前项目状态");
        Some(
            attention(
                project,
                "project_idle_mismatch",
                52,
                "项目仍标记 working，但机长已空闲超过 5 分钟",
                "coordinator",
                since,
                action.as_str(),
                None,
                clock,
            ),
        )
    } else {
        None
    }
}

/// The identifier of a claim, where it has one.
pub open spec fn claim_id_of(claim: Option<JsonV>) -> Option<Seq<char>> {
    match claim {
        Some(value) => if value.string("id"@).len() > 0 {
            Some(value.string("id"@))
        } else {
            None
        },
        None => None,
    }
}

/// When a completion was claimed, or else when the project was last updated.
pub open spec fn claimed_at(claim: Option<JsonV>, entry: JsonV) -> Option<Seq<char>> {
    let found = match claim {
        Some(value) => value.get("created_at"@),
        None => None,
    };
    let found = match found {
        Some(member) => Some(member),
        None => entry.get("updated_at"@),
    };
    match found {
        Some(member) => member.as_text(),
        None => None,
    }
}

/// The state of a claim, where there is a claim with one.
pub open spec fn claim_state_of(claim: Option<JsonV>) -> Option<Seq<char>> {
    match claim {
        Some(value) => value.optional_string("state"@),
        None => None,
    }
}

/// What a claimed completion asks for: machine verification first, then the
/// user's acceptance.
pub open spec fn done_entries(
    project: Seq<char>,
    entry: JsonV,
    claim: Option<JsonV>,
    clock: ClockV,
) -> Seq<JsonV> {
    let state = claim_state_of(claim);
    if state is None || state == Some("reported"@) {
        let id = claim_id_of(claim);
        let action = match id {
            Some(id) => "fleet verify "@ + project + " --claim "@ + id
                + " --label <标签> -- <验证命令>"@,
            None => "fleet report "@ + project + " done <摘要> 后运行 fleet verify"@,
        };
        seq![
            entry_of(
                project,
                "reported_done_unverified"@,
                72,
                "机长声称完成，但尚无通过的机器验证证据"@,
                "coordinator"@,
                claimed_at(claim, entry),
                action,
                id,
                clock,
            ),
        ]
    } else if state == Some("verified"@) {
        let id = claim->0.string("id"@);
        seq![
            entry_of(
                project,
                "ready_for_acceptance"@,
                62,
                "完成声明已通过机器验证，等待用户验收"@,
                "user"@,
                either_text(claim->0, "verified_at"@, "created_at"@),
                "fleet accept "@ + project + " --claim "@ + id,
                Some(id),
                clock,
            ),
        ]
    } else {
        Seq::empty()
    }
}

fn unverified_attention(project: &str, entry: &Json, claim: Option<&Json>, clock: &Clock) -> (r: Json)
    requires
        claim_state_of(json::opt_json(claim)) is None || claim_state_of(json::opt_json(claim))
            == Some("reported"@),
    ensures
        done_entries(project@, entry@, json::opt_json(claim), clock@) == seq![r@],
{
    let id: Option<String> = match claim {
        Some(value) => {
            let id = string(value, "id");
            if id.as_str().is_empty() {
                None
            } else {
                Some(id)
            }
        },
        None => None,
    };
    let found = match claim {
        Some(value) => value.get("created_at"),
        None => None,
    };
    let found = match found {
        Some(member) => Some(member),
        None => entry.get("updated_at"),
    };
    let created: Option<&str> = match found {
        Some(member) => member.as_str(),
        None => None,
    };
    match id {
        Some(id) => {
            let action = cat5(
                "fleet verify ",
                project,
                " --claim ",
                id.as_str(),
                " --label <标签> -- <验证命令>",
            );
            attention(
                project,
                "reported_done_unverified",
                72,
                "机长声称完成，但尚无通过的机器验证证据",
                "coordinator",
                created,
                action.as_str(),
                Some(id.as_str()),
                clock,
            )
        },
        None => {
            let action = cat3("fleet report ", project, " done <摘要> 后运行 fleet verify");
            attention(
                project,
                "reported_done_unverified",
                72,
                "机长声称完成，但尚无通过的机器验证证据",
                "coordinator",
                created,
                action.as_str(),
                None,
                clock,
            )
        },
    }
}

fn done_attention(project: &str, entry: &Json, claim: Option<&Json>, clock: &Clock) -> (r: Option<
    Json,
>)
    ensures
        match r {
            Some(item) => done_entries(project@, entry@, json::opt_json(claim), clock@)
                == seq![item@],
            None => done_entries(project@, entry@, json::opt_json(claim), clock@) == Seq::<
                JsonV,
            >::empty(),
        },
{
    let state: Option<&str> = match claim {
        Some(value) => member_text(value, "state"),
        None => None,
    };
    match state {
        None => Some(unverified_attention(project, entry, claim, clock)),
        Some(state) => if same(state, "reported") {
            Some(unverified_attention(project, entry, claim, clock))
        } else if same(state, "verified") {
            match claim {
                Some(value) => {
                    let id = string(value, "id");
                    let action = cat4("fleet accept ", project, " --claim ", id.as_str());
                    Some(
                        attention(
                            project,
                            "ready_for_acceptance",
                            62,
                            "完成声明已通过机器验证，等待用户验收",
                            "user",
                            either(value, "verified_at", "created_at"),
                            action.as_str(),
                            Some(id.as_str()),
                            clock,
                        ),
                    )
                },
                None => None,
            }
        } else {
            None
        },
    }
}

/// The live state of a project, where the runtime has one.
pub open spec fn live_of(runtime: JsonV, project: Seq<char>) -> Option<JsonV> {
    match runtime.get("projects"@) {
        Some(projects) => projects.get(project),
        None => None,
    }
}

/// What one project asks for.
pub open spec fn project_entries(
    project: Seq<char>,
    entry: JsonV,
    decisions: Seq<JsonV>,
    claims: Seq<JsonV>,
    runtime: JsonV,
    clock: ClockV,
) -> Seq<JsonV> {
    let status = records::effective(entry, decisions, project);
    let watched = runtime.flag("connected"@, false) && (status == "working"@ || status
        == "blocked"@);
    let live = match live_of(runtime, project) {
        Some(live) => if watched {
            live_entries(
                project,
                entry,
                status,
                records::has_open(decisions, project),
                live,
                clock,
            )
        } else {
            Seq::empty()
        },
        None => Seq::empty(),
    };
    let done = if status == "done"@ {
        done_entries(
            project,
            entry,
            records::claim_meant(claims, project, entry.optional_string("claim_id"@)),
            clock,
        )
    } else {
        Seq::empty()
    };
    live + done
}

/// What the projects ask for, in the order of their names.
pub open spec fn registry_entries(
    projects: Seq<Seq<char>>,
    registry: Members,
    decisions: Seq<JsonV>,
    claims: Seq<JsonV>,
    runtime: JsonV,
    clock: ClockV,
) -> Seq<JsonV>
    decreases projects.len(),
{
    if projects.len() == 0 {
        Seq::empty()
    } else {
        registry_entries(projects.drop_last(), registry, decisions, claims, runtime, clock)
            + project_entries(
            projects.last(),
            registry[projects.last()],
            decisions,
            claims,
            runtime,
            clock,
        )
    }
}

/// Everything that needs attention, before it is put in order.
pub open spec fn collected(
    registry: Members,
    decisions: Seq<JsonV>,
    claims: Seq<JsonV>,
    runtime: JsonV,
    clock: ClockV,
) -> Seq<JsonV> {
    decision_entries(decisions, clock) + runtime_entries(runtime, registry, clock)
        + registry_entries(
        json::name_order(registry),
        registry,
        decisions,
        claims,
        runtime,
        clock,
    )
}

/// An integer member, zero where it is none.
pub open spec fn int_member(value: JsonV, name: Seq<char>) -> int {
    match value.get(name) {
        Some(member) => match member.as_i64() {
            Some(n) => n,
            None => 0,
        },
        None => 0,
    }
}

fn int_of(value: &Json, name: &str) -> (r: i64)
    ensures
        r as int == int_member(value@, name@),
{
    match value.get(name) {
        Some(member) => match member.as_i64() {
            Some(n) => n,
            None => 0,
        },
        None => 0,
    }
}

/// One entry comes before another: higher priority first, then greater age,
/// then the name of the project, then the kind.
pub open spec fn more_urgent(left: JsonV, right: JsonV) -> bool {
    let (lp, rp) = (int_member(left, "priority"@), int_member(right, "priority"@));
    let (la, ra) = (int_member(left, "age_seconds"@), int_member(right, "age_seconds"@));
    let (ln, rn) = (left.string("project"@), right.string("project"@));
    let (lk, rk) = (left.string("kind"@), right.string("kind"@));
    if lp != rp {
        lp > rp
    } else if la != ra {
        la > ra
    } else if ln != rn {
        text::before(ln, rn)
    } else {
        text::before(lk, rk)
    }
}

fn urgent(left: &Json, right: &Json) -> (r: bool)
    ensures
        r == more_urgent(left@, right@),
{
    let lp: i64 = int_of(left, "priority");
    let rp: i64 = int_of(right, "priority");
    if lp != rp {
        return lp > rp;
    }
    let la: i64 = int_of(left, "age_seconds");
    let ra: i64 = int_of(right, "age_seconds");
    if la != ra {
        return la > ra;
    }
    let ln = string(left, "project");
    let rn = string(right, "project");
    if !same(ln.as_str(), rn.as_str()) {
        return precedes(ln.as_str(), rn.as_str());
    }
    precedes(string(left, "kind").as_str(), string(right, "kind").as_str())
}

/// The order of the queue.
pub open spec fn urgency() -> spec_fn(JsonV, JsonV) -> bool {
    |left: JsonV, right: JsonV| more_urgent(left, right)
}

/// The attention queue at a reading of the clock.
pub open spec fn queue_at(
    registry: Members,
    decisions: Seq<JsonV>,
    claims: Seq<JsonV>,
    runtime: JsonV,
    clock: ClockV,
) -> Seq<JsonV> {
    order::arranged(collected(registry, decisions, claims, runtime, clock), urgency())
}

/// Puts the entries in the order of the queue.
fn arrange(items: Vec<Json>) -> (r: Vec<Json>)
    ensures
        json::views(r@) == order::arranged(json::views(items@), urgency()),
{
    let mut out: Vec<Json> = Vec::new();
    let mut i: usize = 0;
    let ghost all = json::views(items@);
    proof {
        assert(json::views(out@) =~= all.take(0));
    }
    while i < items.len()
        invariant
            i <= items.len(),
            all == json::views(items@),
            json::views(out@) == order::arranged(all.take(i as int), urgency()),
            out.len() == i,
        decreases items.len() - i,
    {
        let value = items[i].clone();
        let mut at: usize = out.len();
        while at > 0 && urgent(&value, &out[at - 1])
            invariant
                at <= out.len(),
                forall|k: int|
                    at <= k < out.len() ==> urgency()(value@, #[trigger] json::views(out@)[k]),
            decreases at,
        {
            at = at - 1;
        }
        let ghost pre = out@;
        out.insert(at, value);
        proof {
            let sorted = json::views(pre);
            order::lemma_placed_at(sorted, value@, urgency(), at as int);
            assert(json::views(out@) =~= sorted.insert(at as int, value@));
            assert(all.take(i + 1).drop_last() =~= all.take(i as int));
            assert(all.take(i + 1).last() == value@);
        }
        i = i + 1;
    }
    proof {
        assert(all.take(i as int) =~= all);
    }
    out
}

fn push_all(out: &mut Vec<Json>, item: Option<Json>)
    ensures
        json::views(final(out)@) == match item {
            Some(value) => json::views(old(out)@) + seq![value@],
            None => json::views(old(out)@),
        },
{
    match item {
        Some(value) => {
            let ghost pre = out@;
            out.push(value);
            proof {
                json::lemma_views_push(pre, value);
                assert(json::views(pre).push(value@) =~= json::views(pre) + seq![value@]);
            }
        },
        None => {},
    }
}

fn project_attention(
    out: &mut Vec<Json>,
    project: &str,
    entry: &Json,
    decisions: &[Json],
    claims: &[Json],
    runtime: &Json,
    clock: &Clock,
)
    ensures
        json::views(final(out)@) == json::views(old(out)@) + project_entries(
            project@,
            entry@,
            json::views(decisions@),
            json::views(claims@),
            runtime@,
            clock@,
        ),
{
    let status = effective_status(entry, decisions, project);
    let ghost start = json::views(out@);
    let mut live_item: Option<Json> = None;
    if runtime.flag("connected", false) && (same(status.as_str(), "working") || same(
        status.as_str(),
        "blocked",
    )) {
        let live: Option<&Json> = match runtime.get("projects") {
            Some(projects) => projects.get(project),
            None => None,
        };
        match live {
            Some(live) => {
                live_item =
                live_attention(
                    project,
                    entry,
                    status.as_str(),
                    records::any_open(decisions, project),
                    live,
                    clock,
                );
            },
            None => {},
        }
    }
    let mut done_item: Option<Json> = None;
    if same(status.as_str(), "done") {
        let claim = latest_claim(claims, project, member_text(entry, "claim_id"));
        done_item = done_attention(project, entry, claim, clock);
    }
    push_all(out, live_item);
    push_all(out, done_item);
    proof {
        assert(json::views(out@) =~= start + project_entries(
            project@,
            entry@,
            json::views(decisions@),
            json::views(claims@),
            runtime@,
            clock@,
        ));
    }
}

/// The attention queue at a reading of the clock.
pub fn compute_attention_at(
    registry: &Object,
    decisions: &[Json],
    claims: &[Json],
    runtime: &Json,
    clock: &Clock,
) -> (r: Vec<Json>)
    ensures
        json::views(r@) == queue_at(
            registry@,
            json::views(decisions@),
            json::views(claims@),
            runtime@,
            clock@,
        ),
{
    let mut items: Vec<Json> = Vec::new();
    let open = open_decisions(decisions, None);
    let ghost opened = json::views(decisions@).filter(records::open_ones(None));
    let ghost make = |d: JsonV| decision_entry(d, clock@);
    let mut i: usize = 0;
    proof {
        assert(json::views(items@) =~= opened.take(0).map_values(make));
    }
    while i < open.len()
        invariant
            i <= open.len(),
            records::ref_views(open@) == opened,
            make == (|d: JsonV| decision_entry(d, clock@)),
            json::views(items@) == opened.take(i as int).map_values(make),
        decreases open.len() - i,
    {
        let decision: &Json = open[i];
        let id = string(decision, "id");
        let question = match optional_string(decision, "question") {
            Some(question) => question,
            None => "需要用户拍板".to_owned(),
        };
        let action = cat3("fleet resolve ", id.as_str(), " <答案>");
        let item = attention(
            string(decision, "project").as_str(),
            "decision_required",
            100,
            question.as_str(),
            "user",
            member_text(decision, "created_at"),
            action.as_str(),
            Some(id.as_str()),
            clock,
        );
        let ghost pre = items@;
        items.push(item);
        proof {
            json::lemma_views_push(pre, item);
            assert(opened[i as int] == decision@);
            assert(opened.take(i + 1).map_values(make) =~= opened.take(i as int).map_values(
                make,
            ).push(item@));
        }
        i = i + 1;
    }
    proof {
        assert(opened.take(i as int) =~= opened);
    }
    let known = match runtime.as_object() {
        Some(object) => !object.is_empty(),
        None => false,
    };
    if known && !runtime.flag("connected", false) && !registry.is_empty() {
        let reason = match optional_string(runtime, "error") {
            Some(error) => error,
            None => "Herdr 实时状态连接中断".to_owned(),
        };
        let item = attention(
            "*",
            "runtime_disconnected",
            95,
            reason.as_str(),
            "coordinator",
            member_text(runtime, "updated_at"),
            "fleet plugin-reconcile",
            None,
            clock,
        );
        push_all(&mut items, Some(item));
    }
    let ghost head = decision_entries(json::views(decisions@), clock@) + runtime_entries(
        runtime@,
        registry@,
        clock@,
    );
    proof {
        assert(json::views(items@) =~= head);
    }
    let names = registry.names();
    let ghost order = json::name_order(registry@);
    let mut n: usize = 0;
    proof {
        assert(json::views(items@) =~= head + registry_entries(
            order.take(0),
            registry@,
            json::views(decisions@),
            json::views(claims@),
            runtime@,
            clock@,
        ));
    }
    while n < names.len()
        invariant
            n <= names.len(),
            text::texts(names@) == order,
            json::is_name_order(order, registry@),
            json::views(items@) == head + registry_entries(
                order.take(n as int),
                registry@,
                json::views(decisions@),
                json::views(claims@),
                runtime@,
                clock@,
            ),
        decreases names.len() - n,
    {
        proof {
            assert(order[n as int] == names@[n as int]@);
            assert(order.contains(names@[n as int]@));
            assert(order.take(n + 1).drop_last() =~= order.take(n as int));
            assert(order.take(n + 1).last() == names@[n as int]@);
        }
        let ghost pre = json::views(items@);
        match registry.get(names[n].as_str()) {
            Some(entry) => {
                project_attention(
                    &mut items,
                    names[n].as_str(),
                    entry,
                    decisions,
                    claims,
                    runtime,
                    clock,
                );
                proof {
                    assert(json::views(items@) =~= head + registry_entries(
                        order.take(n + 1),
                        registry@,
                        json::views(decisions@),
                        json::views(claims@),
                        runtime@,
                        clock@,
                    ));
                }
            },
            None => {},
        }
        n = n + 1;
    }
    proof {
        assert(order.take(n as int) =~= order);
    }
    arrange(items)
}

/// The attention queue now.
pub fn compute_attention(registry: &Object, decisions: &[Json], claims: &[Json], runtime: &Json) -> (r:
    Vec<Json>)
    ensures
        exists|clock: ClockV|
            outside::plain_time(clock.text) is Some && json::views(r@) == #[trigger] queue_at(
                registry@,
                json::views(decisions@),
                json::views(claims@),
                runtime@,
                clock,
            ),
{
    let clock = Clock::read();
    compute_attention_at(registry, decisions, claims, runtime, &clock)
}

/// The rank of each kind of entry: decisions of the user first, then loss of
/// the runtime, blocks, silence, unverified and unaccepted completions, and
/// mismatches last.
pub open spec fn kind_rank(kind: Seq<char>) -> int {
    if kind == "decision_required"@ {
        100
    } else if kind == "runtime_disconnected"@ {
        95
    } else if kind == "stale_blocked"@ {
        90
    } else if kind == "commander_offline"@ {
        88
    } else if kind == "observed_blocked"@ {
        82
    } else if kind == "reported_done_unverified"@ {
        72
    } else if kind == "ready_for_acceptance"@ {
        62
    } else if kind == "project_idle_mismatch"@ {
        52
    } else {
        0
    }
}

/// Who is to act on each kind of entry: the user on decisions and on
/// acceptances, the coordinator on everything else.
pub open spec fn kind_actor(kind: Seq<char>) -> Seq<char> {
    if kind == "decision_required"@ || kind == "ready_for_acceptance"@ {
        "user"@
    } else {
        "coordinator"@
    }
}

/// The order of the queue is a ranking.
pub proof fn law_urgency_is_a_ranking()
    ensures
        order::is_ranking(urgency()),
{
    let ahead = urgency();
    assert forall|a: JsonV| !#[trigger] ahead(a, a) by {
        text::lemma_before_irreflexive(a.string("kind"@));
    }
    assert forall|a: JsonV, b: JsonV, c: JsonV| #[trigger] ahead(a, b) && #[trigger] ahead(b, c) implies ahead(
        a,
        c,
    ) by {
        lemma_before_chain(a.string("project"@), b.string("project"@), c.string("project"@));
        lemma_before_chain(a.string("kind"@), b.string("kind"@), c.string("kind"@));
    }
    assert forall|a: JsonV, b: JsonV, c: JsonV|
        !#[trigger] ahead(a, b) && !#[trigger] ahead(b, c) implies !ahead(a, c) by {
        lemma_before_chain(c.string("project"@), b.string("project"@), a.string("project"@));
        lemma_before_chain(c.string("kind"@), b.string("kind"@), a.string("kind"@));
        text::lemma_before_total(a.string("project"@), b.string("project"@));
        text::lemma_before_total(b.string("project"@), c.string("project"@));
        text::lemma_before_total(a.string("kind"@), b.string("kind"@));
        text::lemma_before_total(b.string("kind"@), c.string("kind"@));
    }
}

proof fn lemma_before_chain(a: Seq<char>, b: Seq<char>, c: Seq<char>)
    ensures
        text::before(a, b) && text::before(b, c) ==> text::before(a, c) && a != c,
        text::before(a, b) ==> !text::before(b, a),
        text::before(b, c) ==> !text::before(c, b),
        text::before(a, c) ==> !text::before(c, a),
        !text::before(a, a),
{
    text::lemma_before_irreflexive(a);
    if text::before(a, b) && text::before(b, c) {
        text::lemma_before_transitive(a, b, c);
    }
    if text::before(a, b) {
        text::lemma_before_asymmetric(a, b);
    }
    if text::before(b, c) {
        text::lemma_before_asymmetric(b, c);
    }
    if text::before(a, c) {
        text::lemma_before_asymmetric(a, c);
    }
}

/// An entry carries the rank of its kind as its priority, names who is to act
/// on it, and gives a reason and an action.
pub open spec fn ranked(entry: JsonV) -> bool {
    &&& int_member(entry, "priority"@) == kind_rank(entry.string("kind"@))
    &&& entry.string("required_actor"@) == kind_actor(entry.string("kind"@))
    &&& entry.optional_string("reason"@) is Some
    &&& entry.optional_string("action"@) is Some
}

pub open spec fn all_ranked(entries: Seq<JsonV>) -> bool {
    forall|i: int| 0 <= i < entries.len() ==> ranked(#[trigger] entries[i])
}

proof fn lemma_entry_members(
    project: Seq<char>,
    kind: Seq<char>,
    priority: int,
    reason: Seq<char>,
    actor: Seq<char>,
    created_at: Option<Seq<char>>,
    action: Seq<char>,
    reference: Option<Seq<char>>,
    clock: ClockV,
)
    requires
        0 <= priority <= 100,
    ensures
        ({
            let entry = entry_of(
                project,
                kind,
                priority,
                reason,
                actor,
                created_at,
                action,
                reference,
                clock,
            );
            &&& int_member(entry, "priority"@) == priority
            &&& entry.string("kind"@) == kind
            &&& entry.string("project"@) == project
            &&& entry.string("required_actor"@) == actor
            &&& entry.optional_string("reason"@) == Some(reason)
            &&& entry.optional_string("action"@) == Some(action)
            &&& entry.optional_string("reference_id"@) == reference
        }),
{
    reveal_strlit("id");
    reveal_strlit("project");
    reveal_strlit("kind");
    reveal_strlit("priority");
    reveal_strlit("reason");
    reveal_strlit("required_actor");
    reveal_strlit("created_at");
    reveal_strlit("age_seconds");
    reveal_strlit("action");
    reveal_strlit("reference_id");
    assert("id"@.len() == 2 && "kind"@.len() == 4 && "reason"@.len() == 6 && "action"@.len() == 6);
    assert("reason"@[0] == 'r' && "action"@[0] == 'a');
    assert("project"@.len() == 7 && "priority"@.len() == 8 && "created_at"@.len() == 10);
    assert("required_actor"@.len() == 14 && "age_seconds"@.len() == 11 && "reference_id"@.len()
        == 12);
}

proof fn lemma_kinds()
    ensures
        kind_rank("decision_required"@) == 100,
        kind_rank("runtime_disconnected"@) == 95,
        kind_rank("stale_blocked"@) == 90,
        kind_rank("commander_offline"@) == 88,
        kind_rank("observed_blocked"@) == 82,
        kind_rank("reported_done_unverified"@) == 72,
        kind_rank("ready_for_acceptance"@) == 62,
        kind_rank("project_idle_mismatch"@) == 52,
        "ready_for_acceptance"@ != "runtime_disconnected"@,
        "ready_for_acceptance"@ != "stale_blocked"@,
        "ready_for_acceptance"@ != "commander_offline"@,
        "ready_for_acceptance"@ != "observed_blocked"@,
        "ready_for_acceptance"@ != "reported_done_unverified"@,
        "ready_for_acceptance"@ != "project_idle_mismatch"@,
{
    reveal_strlit("decision_required");
    reveal_strlit("runtime_disconnected");
    reveal_strlit("stale_blocked");
    reveal_strlit("commander_offline");
    reveal_strlit("observed_blocked");
    reveal_strlit("reported_done_unverified");
    reveal_strlit("ready_for_acceptance");
    reveal_strlit("project_idle_mismatch");
    assert("decision_required"@[0] == 'd');
    assert("runtime_disconnected"@[0] == 'r' && "runtime_disconnected"@[1] == 'u');
    assert("stale_blocked"@[0] == 's');
    assert("commander_offline"@[0] == 'c');
    assert("observed_blocked"@[0] == 'o');
    assert("reported_done_unverified"@[0] == 'r' && "reported_done_unverified"@[2] == 'p');
    assert("ready_for_acceptance"@[0] == 'r' && "ready_for_acceptance"@[2] == 'a');
    assert("runtime_disconnected"@[2] == 'n');
    assert("project_idle_mismatch"@[0] == 'p');
}

proof fn lemma_project_ranked(
    project: Seq<char>,
    entry: JsonV,
    decisions: Seq<JsonV>,
    claims: Seq<JsonV>,
    runtime: JsonV,
    clock: ClockV,
)
    ensures
        all_ranked(project_entries(project, entry, decisions, claims, runtime, clock)),
        forall|i: int|
            0 <= i < project_entries(project, entry, decisions, claims, runtime, clock).len()
                ==> #[trigger] project_entries(
                project,
                entry,
                decisions,
                claims,
                runtime,
                clock,
            )[i].string("kind"@) != "decision_required"@,
{
    lemma_kinds();
    let status = records::effective(entry, decisions, project);
    let claim = records::claim_meant(claims, project, entry.optional_string("claim_id"@));
    let done = done_entries(project, entry, claim, clock);
    let state = claim_state_of(claim);
    if state is None || state == Some("reported"@) {
        let id = claim_id_of(claim);
        let action = match id {
            Some(id) => "fleet verify "@ + project + " --claim "@ + id
                + " --label <标签> -- <验证命令>"@,
            None => "fleet report "@ + project + " done <摘要> 后运行 fleet verify"@,
        };
        lemma_entry_members(
            project,
            "reported_done_unverified"@,
            72,
            "机长声称完成，但尚无通过的机器验证证据"@,
            "coordinator"@,
            claimed_at(claim, entry),
            action,
            id,
            clock,
        );
    } else if state == Some("verified"@) {
        let id = claim->0.string("id"@);
        lemma_entry_members(
            project,
            "ready_for_acceptance"@,
            62,
            "完成声明已通过机器验证，等待用户验收"@,
            "user"@,
            either_text(claim->0, "verified_at"@, "created_at"@),
            "fleet accept "@ + project + " --claim "@ + id,
            Some(id),
            clock,
        );
    }
    assert(all_ranked(done));
    match live_of(runtime, project) {
        Some(live) => {
            lemma_live_ranked(
                project,
                entry,
                status,
                records::has_open(decisions, project),
                live,
                clock,
            );
        },
        None => {},
    }
}

proof fn lemma_live_ranked(
    project: Seq<char>,
    entry: JsonV,
    status: Seq<char>,
    has_decision: bool,
    live: JsonV,
    clock: ClockV,
)
    ensures
        all_ranked(live_entries(project, entry, status, has_decision, live, clock)),
        live_entries(project, entry, status, has_decision, live, clock).len() <= 1,
        forall|i: int|
            0 <= i < live_entries(project, entry, status, has_decision, live, clock).len()
                ==> #[trigger] live_entries(
                project,
                entry,
                status,
                has_decision,
                live,
                clock,
            )[i].string("kind"@) != "decision_required"@,
{
    lemma_kinds();
    let since = either_text(live, "live_status_since"@, "observed_at"@);
    let stale = age_at(since, clock.moment) >= 600;
    lemma_entry_members(
        project,
        "commander_offline"@,
        88,
        "项目仍标记为 "@ + status + "，但机长 "@ + entry.string("commander"@) + " 已离线"@,
        "coordinator"@,
        since,
        "fleet route "@ + project + " <恢复或重新指派指令>"@,
        None,
        clock,
    );
    lemma_entry_members(
        project,
        if stale { "stale_blocked"@ } else { "observed_blocked"@ },
        if stale { 90 } else { 82 },
        if stale {
            "机长持续阻塞超过 10 分钟，且尚未创建正式决策"@
        } else {
            "机长实时状态为 blocked，但尚未创建正式决策"@
        },
        "coordinator"@,
        since,
        "fleet route "@ + project + " 请说明阻塞原因；需要用户拍板时运行 fleet ask"@,
        None,
        clock,
    );
    lemma_entry_members(
        project,
        "project_idle_mismatch"@,
        52,
        "项目仍标记 working，但机长已空闲超过 5 分钟"@,
        "coordinator"@,
        since,
        "fleet route "@ + project + " 请汇报当前项目状态"@,
        None,
        clock,
    );
}

proof fn lemma_registry_ranked(
    projects: Seq<Seq<char>>,
    registry: Members,
    decisions: Seq<JsonV>,
    claims: Seq<JsonV>,
    runtime: JsonV,
    clock: ClockV,
)
    ensures
        all_ranked(registry_entries(projects, registry, decisions, claims, runtime, clock)),
        forall|i: int|
            0 <= i < registry_entries(projects, registry, decisions, claims, runtime, clock).len()
                ==> #[trigger] registry_entries(
                projects,
                registry,
                decisions,
                claims,
                runtime,
                clock,
            )[i].string("kind"@) != "decision_required"@,
    decreases projects.len(),
{
    if projects.len() > 0 {
        lemma_registry_ranked(projects.drop_last(), registry, decisions, claims, runtime, clock);
        lemma_project_ranked(
            projects.last(),
            registry[projects.last()],
            decisions,
            claims,
            runtime,
            clock,
        );
    }
}

proof fn lemma_decision_members(decision: JsonV, clock: ClockV)
    ensures
        ranked(decision_entry(decision, clock)),
        decision_entry(decision, clock).string("kind"@) == "decision_required"@,
        decision_entry(decision, clock).string("project"@) == decision.string("project"@),
        decision_entry(decision, clock).optional_string("reference_id"@) == Some(
            decision.string("id"@),
        ),
{
    lemma_kinds();
    let id = decision.string("id"@);
    let question = match decision.optional_string("question"@) {
        Some(question) => question,
        None => "需要用户拍板"@,
    };
    lemma_entry_members(
        decision.string("project"@),
        "decision_required"@,
        100,
        question,
        "user"@,
        decision.optional_string("created_at"@),
        "fleet resolve "@ + id + " <答案>"@,
        Some(id),
        clock,
    );
}

proof fn lemma_runtime_ranked(runtime: JsonV, registry: Members, clock: ClockV)
    ensures
        all_ranked(runtime_entries(runtime, registry, clock)),
        forall|i: int|
            0 <= i < runtime_entries(runtime, registry, clock).len() ==> #[trigger] runtime_entries(
                runtime,
                registry,
                clock,
            )[i].string("kind"@) != "decision_required"@,
{
    lemma_kinds();
    let reason = match runtime.optional_string("error"@) {
        Some(error) => error,
        None => "Herdr 实时状态连接中断"@,
    };
    lemma_entry_members(
        "*"@,
        "runtime_disconnected"@,
        95,
        reason,
        "coordinator"@,
        runtime.optional_string("updated_at"@),
        "fleet plugin-reconcile"@,
        None,
        clock,
    );
}

proof fn lemma_collected_ranked(
    registry: Members,
    decisions: Seq<JsonV>,
    claims: Seq<JsonV>,
    runtime: JsonV,
    clock: ClockV,
)
    ensures
        all_ranked(collected(registry, decisions, claims, runtime, clock)),
{
    let opened = decisions.filter(records::open_ones(None));
    let first = decision_entries(decisions, clock);
    assert forall|i: int| 0 <= i < first.len() implies ranked(#[trigger] first[i]) by {
        lemma_decision_members(opened[i], clock);
    }
    lemma_runtime_ranked(runtime, registry, clock);
    lemma_registry_ranked(
        json::name_order(registry),
        registry,
        decisions,
        claims,
        runtime,
        clock,
    );
}

/// The queue holds what was collected, each entry as often, and nothing else.
pub proof fn law_queue_holds_what_was_collected(
    registry: Members,
    decisions: Seq<JsonV>,
    claims: Seq<JsonV>,
    runtime: JsonV,
    clock: ClockV,
)
    ensures
        queue_at(registry, decisions, claims, runtime, clock).to_multiset() == collected(
            registry,
            decisions,
            claims,
            runtime,
            clock,
        ).to_multiset(),
{
    order::lemma_arranged_same_values(
        collected(registry, decisions, claims, runtime, clock),
        urgency(),
    );
}

/// No entry of the queue stands behind one that is less urgent.
pub proof fn law_queue_is_in_order(
    registry: Members,
    decisions: Seq<JsonV>,
    claims: Seq<JsonV>,
    runtime: JsonV,
    clock: ClockV,
)
    ensures
        order::in_order(queue_at(registry, decisions, claims, runtime, clock), urgency()),
{
    law_urgency_is_a_ranking();
    order::lemma_arranged_in_order(
        collected(registry, decisions, claims, runtime, clock),
        urgency(),
    );
}

/// What the queue holds was collected.
proof fn lemma_queued_was_collected(
    registry: Members,
    decisions: Seq<JsonV>,
    claims: Seq<JsonV>,
    runtime: JsonV,
    clock: ClockV,
    i: int,
)
    requires
        0 <= i < queue_at(registry, decisions, claims, runtime, clock).len(),
    ensures
        collected(registry, decisions, claims, runtime, clock).contains(
            queue_at(registry, decisions, claims, runtime, clock)[i],
        ),
{
    broadcast use vstd::seq_lib::group_to_multiset_ensures;

    law_queue_holds_what_was_collected(registry, decisions, claims, runtime, clock);
    let queue = queue_at(registry, decisions, claims, runtime, clock);
    assert(queue.contains(queue[i]));
    assert(queue.to_multiset().count(queue[i]) > 0);
}

/// The queue is governance-first: kinds of a higher rank come before kinds of
/// a lower one, so a decision of the user stands before everything else.
pub proof fn law_queue_goes_by_rank(
    registry: Members,
    decisions: Seq<JsonV>,
    claims: Seq<JsonV>,
    runtime: JsonV,
    clock: ClockV,
)
    ensures
        ({
            let queue = queue_at(registry, decisions, claims, runtime, clock);
            forall|i: int, j: int|
                0 <= i < j < queue.len() ==> kind_rank(#[trigger] queue[i].string("kind"@))
                    >= kind_rank(#[trigger] queue[j].string("kind"@))
        }),
{
    let queue = queue_at(registry, decisions, claims, runtime, clock);
    law_queue_is_in_order(registry, decisions, claims, runtime, clock);
    lemma_collected_ranked(registry, decisions, claims, runtime, clock);
    assert forall|i: int, j: int| 0 <= i < j < queue.len() implies kind_rank(
        #[trigger] queue[i].string("kind"@),
    ) >= kind_rank(#[trigger] queue[j].string("kind"@)) by {
        lemma_queued_was_collected(registry, decisions, claims, runtime, clock, i);
        lemma_queued_was_collected(registry, decisions, claims, runtime, clock, j);
        assert(ranked(queue[i]) && ranked(queue[j]));
        assert(!urgency()(queue[j], queue[i]));
    }
}

/// Every entry of the queue has the rank of its kind as its priority, names
/// who is to act on it, and gives a reason and an action.
pub proof fn law_entries_are_complete(
    registry: Members,
    decisions: Seq<JsonV>,
    claims: Seq<JsonV>,
    runtime: JsonV,
    clock: ClockV,
)
    ensures
        all_ranked(queue_at(registry, decisions, claims, runtime, clock)),
{
    let queue = queue_at(registry, decisions, claims, runtime, clock);
    lemma_collected_ranked(registry, decisions, claims, runtime, clock);
    assert forall|i: int| 0 <= i < queue.len() implies ranked(#[trigger] queue[i]) by {
        lemma_queued_was_collected(registry, decisions, claims, runtime, clock, i);
    }
}

/// Every open decision stands in the queue.
pub proof fn law_open_decision_is_queued(
    registry: Members,
    decisions: Seq<JsonV>,
    claims: Seq<JsonV>,
    runtime: JsonV,
    clock: ClockV,
    i: int,
)
    requires
        0 <= i < decisions.len(),
        records::is_open(decisions[i], None),
    ensures
        queue_at(registry, decisions, claims, runtime, clock).contains(
            decision_entry(decisions[i], clock),
        ),
{
    broadcast use vstd::seq_lib::group_to_multiset_ensures;

    let wanted = records::open_ones(None);
    let opened = decisions.filter(wanted);
    decisions.lemma_filter_contains(wanted, i);
    let k = choose|k: int| 0 <= k < opened.len() && opened[k] == decisions[i];
    let first = decision_entries(decisions, clock);
    let all = collected(registry, decisions, claims, runtime, clock);
    assert(first[k] == decision_entry(decisions[i], clock));
    assert(all[k] == first[k]);
    assert(all.contains(first[k]));
    law_queue_holds_what_was_collected(registry, decisions, claims, runtime, clock);
    let queue = queue_at(registry, decisions, claims, runtime, clock);
    assert(queue.to_multiset().count(first[k]) > 0);
}

/// Nothing but an open decision makes an entry that asks for a decision: no
/// live state does, blocked or not.
pub proof fn law_only_open_decisions_ask_for_one(
    registry: Members,
    decisions: Seq<JsonV>,
    claims: Seq<JsonV>,
    runtime: JsonV,
    clock: ClockV,
    i: int,
)
    requires
        0 <= i < queue_at(registry, decisions, claims, runtime, clock).len(),
        queue_at(registry, decisions, claims, runtime, clock)[i].string("kind"@)
            == "decision_required"@,
    ensures
        exists|k: int|
            0 <= k < decisions.len() && records::is_open(decisions[k], None) && queue_at(
                registry,
                decisions,
                claims,
                runtime,
                clock,
            )[i] == decision_entry(#[trigger] decisions[k], clock),
{
    let queue = queue_at(registry, decisions, claims, runtime, clock);
    let all = collected(registry, decisions, claims, runtime, clock);
    lemma_queued_was_collected(registry, decisions, claims, runtime, clock, i);
    let k = choose|k: int| 0 <= k < all.len() && all[k] == queue[i];
    let first = decision_entries(decisions, clock);
    let second = runtime_entries(runtime, registry, clock);
    let third = registry_entries(
        json::name_order(registry),
        registry,
        decisions,
        claims,
        runtime,
        clock,
    );
    lemma_runtime_ranked(runtime, registry, clock);
    lemma_registry_ranked(
        json::name_order(registry),
        registry,
        decisions,
        claims,
        runtime,
        clock,
    );
    if k >= first.len() {
        if k < first.len() + second.len() {
            assert(all[k] == second[k - first.len()]);
        } else {
            assert(all[k] == third[k - first.len() - second.len()]);
        }
        assert(false);
    }
    let wanted = records::open_ones(None);
    let opened = decisions.filter(wanted);
    assert(all[k] == decision_entry(opened[k], clock));
    decisions.lemma_filter_pred(wanted, k);
    assert(opened.contains(opened[k]));
    decisions.lemma_filter_contains_rev(wanted, opened[k]);
    let n = choose|n: int| 0 <= n < decisions.len() && decisions[n] == opened[k];
    assert(records::is_open(decisions[n], None));
}

proof fn lemma_project_collected(
    projects: Seq<Seq<char>>,
    registry: Members,
    decisions: Seq<JsonV>,
    claims: Seq<JsonV>,
    runtime: JsonV,
    clock: ClockV,
    n: int,
    i: int,
)
    requires
        0 <= n < projects.len(),
        0 <= i < project_entries(
            projects[n],
            registry[projects[n]],
            decisions,
            claims,
            runtime,
            clock,
        ).len(),
    ensures
        registry_entries(projects, registry, decisions, claims, runtime, clock).contains(
            project_entries(
                projects[n],
                registry[projects[n]],
                decisions,
                claims,
                runtime,
                clock,
            )[i],
        ),
    decreases projects.len(),
{
    let own = project_entries(
        projects[n],
        registry[projects[n]],
        decisions,
        claims,
        runtime,
        clock,
    );
    let rest = registry_entries(
        projects.drop_last(),
        registry,
        decisions,
        claims,
        runtime,
        clock,
    );
    let all = registry_entries(projects, registry, decisions, claims, runtime, clock);
    if n == projects.len() - 1 {
        assert(all[rest.len() + i] == own[i]);
    } else {
        assert(projects.drop_last()[n] == projects[n]);
        lemma_project_collected(
            projects.drop_last(),
            registry,
            decisions,
            claims,
            runtime,
            clock,
            n,
            i,
        );
        let k = choose|k: int| 0 <= k < rest.len() && rest[k] == own[i];
        assert(all[k] == own[i]);
    }
}

/// Whatever a registered project asks for stands in the queue: a block or a
/// silence of its commander, a completion that waits for verification, or one
/// that waits for the user.
pub proof fn law_what_a_project_asks_for_is_queued(
    registry: Members,
    decisions: Seq<JsonV>,
    claims: Seq<JsonV>,
    runtime: JsonV,
    clock: ClockV,
    project: Seq<char>,
    i: int,
)
    requires
        registry.dom().finite(),
        registry.contains_key(project),
        0 <= i < project_entries(
            project,
            registry[project],
            decisions,
            claims,
            runtime,
            clock,
        ).len(),
    ensures
        queue_at(registry, decisions, claims, runtime, clock).contains(
            project_entries(project, registry[project], decisions, claims, runtime, clock)[i],
        ),
{
    broadcast use vstd::seq_lib::group_to_multiset_ensures;

    let own = project_entries(project, registry[project], decisions, claims, runtime, clock);
    let order = json::name_order(registry);
    json::lemma_name_order(registry);
    assert(order.contains(project));
    let n = choose|n: int| 0 <= n < order.len() && order[n] == project;
    lemma_project_collected(order, registry, decisions, claims, runtime, clock, n, i);
    let third = registry_entries(order, registry, decisions, claims, runtime, clock);
    let k = choose|k: int| 0 <= k < third.len() && third[k] == own[i];
    let head = decision_entries(decisions, clock) + runtime_entries(runtime, registry, clock);
    let all = collected(registry, decisions, claims, runtime, clock);
    assert(all[head.len() + k] == own[i]);
    assert(all.contains(own[i]));
    law_queue_holds_what_was_collected(registry, decisions, claims, runtime, clock);
    let queue = queue_at(registry, decisions, claims, runtime, clock);
    assert(queue.to_multiset().count(own[i]) > 0);
}

} // verus!
