//! The transitions of the trusted state: what registering, reporting, asking,
//! resolving, verifying and accepting do to registry, decisions and claims.
use vstd::prelude::*;
use crate::fault::{Fault, FaultKind, FaultV};
use crate::fault;
use crate::json::{array_of, clone_items, optional_string, string, string_is, Json, JsonV, Members, Object};
use crate::json;
use crate::records::{any_open, find_claim};
use crate::records;
use crate::text;
use crate::text::{cat2, cat3, decimal, find_char, same, slice, trim};

verus! {

/// The members of the entry of a project, or why there are none.
pub open spec fn entry_of(registry: Members, project: Seq<char>) -> Result<Members, FaultV> {
    if !registry.contains_key(project) {
        Err(fault::about(FaultKind::Unregistered, project))
    } else {
        match registry[project] {
            JsonV::Object(members) => Ok(members),
            _ => Err(fault::plain(FaultKind::NotAnObject)),
        }
    }
}

/// The refusal of a project that is not registered.
pub fn unregistered(project: &str) -> (r: Fault)
    ensures
        r@ == fault::about(FaultKind::Unregistered, project@),
{
    Fault::about(FaultKind::Unregistered, project)
}

fn entry(registry: &Object, project: &str) -> (r: Result<Object, Fault>)
    ensures
        match r {
            Ok(object) => entry_of(registry@, project@) == Ok::<Members, FaultV>(object@),
            Err(refusal) => entry_of(registry@, project@) == Err::<Members, FaultV>(refusal@),
        },
{
    match registry.get(project) {
        Some(Json::Object(object)) => Ok(object.clone()),
        Some(_) => Err(Fault::plain(FaultKind::NotAnObject)),
        None => Err(unregistered(project)),
    }
}

/// The members with one that is put in only where it is missing.
pub open spec fn with_missing(members: Members, name: Seq<char>, value: JsonV) -> Members {
    if members.contains_key(name) {
        members
    } else {
        members.insert(name, value)
    }
}

fn put_missing(object: &mut Object, name: &str, value: Json)
    ensures
        final(object)@ == with_missing(old(object)@, name@, value@),
{
    if !object.contains(name) {
        object.put(name, value);
    }
}

/// The entry of a project after it was registered.
pub open spec fn registered_entry(
    members: Members,
    tab: Seq<char>,
    commander: Seq<char>,
    cwd: Seq<char>,
    now: Seq<char>,
) -> JsonV {
    let named = members.insert("tab_id"@, JsonV::Text(tab)).insert(
        "commander"@,
        JsonV::Text(commander),
    ).insert("cwd"@, JsonV::Text(cwd));
    let first = with_missing(named, "status"@, JsonV::Text("idle"@));
    let second = with_missing(first, "reported_status"@, JsonV::Text("idle"@));
    let third = with_missing(second, "note"@, JsonV::Text(""@));
    let fourth = with_missing(third, "claim_id"@, JsonV::Null);
    let fifth = with_missing(fourth, "claim_state"@, JsonV::Null);
    JsonV::Object(fifth.insert("updated_at"@, JsonV::Text(now)))
}

/// The registry after a project was registered, anew or again. `cwd` is its
/// working directory, or why that could not be told.
pub open spec fn register_outcome(
    registry: Members,
    project: Seq<char>,
    tab: Seq<char>,
    commander: Seq<char>,
    cwd: Result<Seq<char>, FaultV>,
    now: Seq<char>,
) -> Result<Members, FaultV> {
    let found = if registry.contains_key(project) {
        registry[project]
    } else {
        JsonV::Object(Map::empty())
    };
    match found {
        JsonV::Object(members) => match cwd {
            Ok(path) => Ok(
                registry.insert(project, registered_entry(members, tab, commander, path, now)),
            ),
            Err(reason) => Err(reason),
        },
        _ => Err(fault::plain(FaultKind::NotAnObject)),
    }
}

pub open spec fn path_view(cwd: Result<String, Fault>) -> Result<Seq<char>, FaultV> {
    match cwd {
        Ok(path) => Ok(path@),
        Err(refusal) => Err(refusal@),
    }
}

/// Registers a project, anew or again: what it has reported stays.
pub fn register(
    registry: &mut Object,
    project: &str,
    tab: &str,
    commander: &str,
    cwd: Result<String, Fault>,
    now: &str,
) -> (r: Result<(), Fault>)
    ensures
        match r {
            Ok(()) => register_outcome(
                old(registry)@,
                project@,
                tab@,
                commander@,
                path_view(cwd),
                now@,
            ) == Ok::<Members, FaultV>(final(registry)@),
            Err(refusal) => register_outcome(
                old(registry)@,
                project@,
                tab@,
                commander@,
                path_view(cwd),
                now@,
            ) == Err::<Members, FaultV>(refusal@) && final(registry)@ == old(registry)@,
        },
{
    let mut object: Object = match registry.get(project) {
        Some(Json::Object(object)) => object.clone(),
        Some(_) => {
            return Err(Fault::plain(FaultKind::NotAnObject));
        },
        None => Object::new(),
    };
    let path: String = match cwd {
        Ok(path) => path,
        Err(refusal) => {
            return Err(refusal);
        },
    };
    object.put("tab_id", Json::text(tab));
    object.put("commander", Json::text(commander));
    object.put("cwd", Json::Text(path));
    put_missing(&mut object, "status", Json::text("idle"));
    put_missing(&mut object, "reported_status", Json::text("idle"));
    put_missing(&mut object, "note", Json::text(""));
    put_missing(&mut object, "claim_id", Json::Null);
    put_missing(&mut object, "claim_state", Json::Null);
    object.put("updated_at", Json::text(now));
    registry.put(project, Json::Object(object));
    Ok(())
}

/// The registry after a project was taken out.
pub open spec fn unregister_outcome(registry: Members, project: Seq<char>) -> Result<
    Members,
    FaultV,
> {
    if registry.contains_key(project) {
        Ok(registry.remove(project))
    } else {
        Err(fault::about(FaultKind::Unregistered, project))
    }
}

/// Takes a project out of the registry.
pub fn unregister(registry: &mut Object, project: &str) -> (r: Result<(), Fault>)
    ensures
        match r {
            Ok(()) => unregister_outcome(old(registry)@, project@) == Ok::<Members, FaultV>(
                final(registry)@,
            ),
            Err(refusal) => unregister_outcome(old(registry)@, project@) == Err::<Members, FaultV>(
                refusal@,
            ) && final(registry)@ == old(registry)@,
        },
{
    if registry.contains(project) {
        registry.remove(project);
        Ok(())
    } else {
        Err(unregistered(project))
    }
}

/// The status that is shown: an open decision overrides what is reported.
pub open spec fn shown_status(
    decisions: Seq<JsonV>,
    project: Seq<char>,
    status: Seq<char>,
) -> Seq<char> {
    if records::has_open(decisions, project) {
        "need_decision"@
    } else {
        status
    }
}

fn shown<'a>(decisions: &[Json], project: &str, status: &'a str) -> (r: &'a str)
    ensures
        r@ == shown_status(json::views(decisions@), project@, status@),
{
    if any_open(decisions, project) {
        "need_decision"
    } else {
        status
    }
}

/// The registry after the status of a project was set.
pub open spec fn set_status_outcome(
    registry: Members,
    decisions: Seq<JsonV>,
    project: Seq<char>,
    status: Seq<char>,
    note: Seq<char>,
    now: Seq<char>,
) -> Result<Members, FaultV> {
    match entry_of(registry, project) {
        Ok(members) => {
            let set = members.insert("reported_status"@, JsonV::Text(status)).insert(
                "status"@,
                JsonV::Text(shown_status(decisions, project, status)),
            );
            let noted = if note.len() > 0 {
                set.insert("note"@, JsonV::Text(note))
            } else {
                set
            };
            Ok(
                registry.insert(
                    project,
                    JsonV::Object(noted.insert("updated_at"@, JsonV::Text(now))),
                ),
            )
        },
        Err(reason) => Err(reason),
    }
}

/// Sets the status of a project, and its note where one is given.
pub fn set_status(
    registry: &mut Object,
    decisions: &[Json],
    project: &str,
    status: &str,
    note: &str,
    now: &str,
) -> (r: Result<(), Fault>)
    ensures
        match r {
            Ok(()) => set_status_outcome(
                old(registry)@,
                json::views(decisions@),
                project@,
                status@,
                note@,
                now@,
            ) == Ok::<Members, FaultV>(final(registry)@),
            Err(refusal) => set_status_outcome(
                old(registry)@,
                json::views(decisions@),
                project@,
                status@,
                note@,
                now@,
            ) == Err::<Members, FaultV>(refusal@) && final(registry)@ == old(registry)@,
        },
{
    let mut object = match entry(registry, project) {
        Ok(object) => object,
        Err(refusal) => {
            return Err(refusal);
        },
    };
    object.put("reported_status", Json::text(status));
    object.put("status", Json::text(shown(decisions, project, status)));
    if !note.is_empty() {
        object.put("note", Json::text(note));
    }
    object.put("updated_at", Json::text(now));
    registry.put(project, Json::Object(object));
    Ok(())
}

/// A piece of evidence that a commander declares: what stands before the
/// first colon is its kind, `note` where nothing does.
pub open spec fn evidence_outcome(value: Seq<char>, token: Seq<char>, now: Seq<char>) -> Result<
    JsonV,
    FaultV,
> {
    let at = text::first_index(value, ':') as int;
    let kind = if at < value.len() {
        text::trimmed(value.take(at))
    } else {
        "note"@
    };
    let detail = if at < value.len() {
        text::trimmed(value.skip(at + 1))
    } else {
        text::trimmed(value)
    };
    if detail.len() == 0 {
        Err(fault::plain(FaultKind::EmptyEvidence))
    } else {
        Ok(
            JsonV::Object(
                map![
                    "id"@ => JsonV::Text("evidence-"@ + token),
                    "kind"@ => JsonV::Text(if kind.len() == 0 { "note"@ } else { kind }),
                    "value"@ => JsonV::Text(detail),
                    "source"@ => JsonV::Text("commander"@),
                    "verified"@ => JsonV::Bool(false),
                    "created_at"@ => JsonV::Text(now),
                ],
            ),
        )
    }
}

/// A piece of evidence that a commander declares, as `kind:detail` or as a
/// mere note.
pub fn parse_evidence(value: &str, token: &str, now: &str) -> (r: Result<Json, Fault>)
    ensures
        match r {
            Ok(evidence) => evidence_outcome(value@, token@, now@) == Ok::<JsonV, FaultV>(
                evidence@,
            ),
            Err(refusal) => evidence_outcome(value@, token@, now@) == Err::<JsonV, FaultV>(
                refusal@,
            ),
        },
{
    let length: usize = value.unicode_len();
    let at: usize = find_char(value, ':');
    let kind: String = if at < length {
        trim(slice(value, 0, at).as_str())
    } else {
        "note".to_owned()
    };
    let detail: String = if at < length {
        trim(slice(value, at + 1, length).as_str())
    } else {
        trim(value)
    };
    proof {
        if at < length {
            assert(value@.subrange(0, at as int) =~= value@.take(at as int));
            assert(value@.subrange(at + 1, length as int) =~= value@.skip(at + 1));
        }
    }
    if detail.as_str().is_empty() {
        return Err(Fault::plain(FaultKind::EmptyEvidence));
    }
    let kind: String = if kind.as_str().is_empty() {
        "note".to_owned()
    } else {
        kind
    };
    let mut object = Object::new();
    object.put("id", Json::Text(cat2("evidence-", token)));
    object.put("kind", Json::Text(kind));
    object.put("value", Json::Text(detail));
    object.put("source", Json::text("commander"));
    object.put("verified", Json::Bool(false));
    object.put("created_at", Json::text(now));
    Ok(Json::Object(object))
}

/// What a commander claims of a project.
pub struct ClaimV {
    pub id: Seq<char>,
    pub project: Seq<char>,
    pub status: Seq<char>,
    pub summary: Seq<char>,
    pub confidence: JsonV,
    pub evidence: Seq<JsonV>,
    pub created: Seq<char>,
}

/// What a commander claims of a project.
pub struct Claim {
    pub id: String,
    pub project: String,
    pub status: String,
    pub summary: String,
    pub confidence: Json,
    pub evidence: Vec<Json>,
    pub created: String,
}

impl Claim {
    pub open spec fn view(&self) -> ClaimV {
        ClaimV {
            id: self.id@,
            project: self.project@,
            status: self.status@,
            summary: self.summary@,
            confidence: self.confidence@,
            evidence: json::views(self.evidence@),
            created: self.created@,
        }
    }
}

/// A new claim: it is reported, and neither verified nor accepted.
pub open spec fn claim_record(claim: ClaimV) -> JsonV {
    JsonV::Object(
        map![
            "id"@ => JsonV::Text(claim.id),
            "project"@ => JsonV::Text(claim.project),
            "status"@ => JsonV::Text(claim.status),
            "summary"@ => JsonV::Text(claim.summary),
            "confidence"@ => claim.confidence,
            "state"@ => JsonV::Text("reported"@),
            "evidence"@ => JsonV::Array(claim.evidence),
            "created_at"@ => JsonV::Text(claim.created),
            "verified_at"@ => JsonV::Null,
            "accepted_at"@ => JsonV::Null,
            "accepted_by"@ => JsonV::Null,
            "acceptance_note"@ => JsonV::Null,
        ],
    )
}

/// What the inbox is told of a new claim.
pub open spec fn claim_notice(claim: ClaimV) -> JsonV {
    JsonV::Object(
        map![
            "ts"@ => JsonV::Text(claim.created),
            "type"@ => JsonV::Text("status_claimed"@),
            "project"@ => JsonV::Text(claim.project),
            "status"@ => JsonV::Text(claim.status),
            "summary"@ => JsonV::Text(claim.summary),
            "claim_id"@ => JsonV::Text(claim.id),
            "claim_state"@ => JsonV::Text("reported"@),
            "confidence"@ => claim.confidence,
            "evidence_count"@ => JsonV::Int(claim.evidence.len() as int),
        ],
    )
}

/// The entry of a project after a claim.
pub open spec fn claimed_entry(members: Members, claim: ClaimV, decisions: Seq<JsonV>) -> JsonV {
    JsonV::Object(
        members.insert("reported_status"@, JsonV::Text(claim.status)).insert(
            "status"@,
            JsonV::Text(shown_status(decisions, claim.project, claim.status)),
        ).insert("note"@, JsonV::Text(claim.summary)).insert(
            "claim_id"@,
            JsonV::Text(claim.id),
        ).insert("claim_state"@, JsonV::Text("reported"@)).insert(
            "updated_at"@,
            JsonV::Text(claim.created),
        ),
    )
}

/// A registry and a list of documents after a transition, and what the inbox
/// is told of it.
pub struct Change {
    pub registry: Members,
    pub list: Seq<JsonV>,
    pub notice: JsonV,
}

/// What a claim does to registry and claims.
pub open spec fn report_outcome(
    registry: Members,
    decisions: Seq<JsonV>,
    claims: Seq<JsonV>,
    claim: ClaimV,
) -> Result<Change, FaultV> {
    match entry_of(registry, claim.project) {
        Ok(members) => Ok(
            Change {
                registry: registry.insert(
                    claim.project,
                    claimed_entry(members, claim, decisions),
                ),
                list: claims.push(claim_record(claim)),
                notice: claim_notice(claim),
            },
        ),
        Err(reason) => Err(reason),
    }
}

/// Records a claim, and gives what the inbox is told of it.
pub fn report(
    registry: &mut Object,
    decisions: &[Json],
    claims: &mut Vec<Json>,
    claim: &Claim,
) -> (r: Result<Json, Fault>)
    ensures
        match r {
            Ok(notice) => report_outcome(
                old(registry)@,
                json::views(decisions@),
                json::views(old(claims)@),
                claim@,
            ) == Ok::<Change, FaultV>(
                Change {
                    registry: final(registry)@,
                    list: json::views(final(claims)@),
                    notice: notice@,
                },
            ),
            Err(refusal) => report_outcome(
                old(registry)@,
                json::views(decisions@),
                json::views(old(claims)@),
                claim@,
            ) == Err::<Change, FaultV>(refusal@) && final(registry)@ == old(registry)@
                && final(claims)@ == old(claims)@,
        },
{
    let project = claim.project.as_str();
    let status = claim.status.as_str();
    let mut object = match entry(registry, project) {
        Ok(object) => object,
        Err(refusal) => {
            return Err(refusal);
        },
    };
    let mut record = Object::new();
    record.put("id", Json::text(claim.id.as_str()));
    record.put("project", Json::text(project));
    record.put("status", Json::text(status));
    record.put("summary", Json::text(claim.summary.as_str()));
    record.put("confidence", claim.confidence.clone());
    record.put("state", Json::text("reported"));
    record.put("evidence", Json::Array(clone_items(&claim.evidence)));
    record.put("created_at", Json::text(claim.created.as_str()));
    record.put("verified_at", Json::Null);
    record.put("accepted_at", Json::Null);
    record.put("accepted_by", Json::Null);
    record.put("acceptance_note", Json::Null);
    let record = Json::Object(record);
    proof {
        json::lemma_views_push(claims@, record);
    }
    claims.push(record);
    object.put("reported_status", Json::text(status));
    object.put("status", Json::text(shown(decisions, project, status)));
    object.put("note", Json::text(claim.summary.as_str()));
    object.put("claim_id", Json::text(claim.id.as_str()));
    object.put("claim_state", Json::text("reported"));
    object.put("updated_at", Json::text(claim.created.as_str()));
    registry.put(project, Json::Object(object));
    let mut notice = Object::new();
    notice.put("ts", Json::text(claim.created.as_str()));
    notice.put("type", Json::text("status_claimed"));
    notice.put("project", Json::text(project));
    notice.put("status", Json::text(status));
    notice.put("summary", Json::text(claim.summary.as_str()));
    notice.put("claim_id", Json::text(claim.id.as_str()));
    notice.put("claim_state", Json::text("reported"));
    notice.put("confidence", claim.confidence.clone());
    notice.put("evidence_count", Json::natural(claim.evidence.len() as u64));
    Ok(Json::Object(notice))
}

/// A question that needs a decision of the user.
pub struct QuestionV {
    pub id: Seq<char>,
    pub project: Seq<char>,
    pub question: Seq<char>,
    pub options: Seq<Seq<char>>,
    pub created: Seq<char>,
}

/// A question that needs a decision of the user.
pub struct Question {
    pub id: String,
    pub project: String,
    pub question: String,
    pub options: Vec<String>,
    pub created: String,
}

impl Question {
    pub open spec fn view(&self) -> QuestionV {
        QuestionV {
            id: self.id@,
            project: self.project@,
            question: self.question@,
            options: text::texts(self.options@),
            created: self.created@,
        }
    }
}

/// A new decision: it is open.
pub open spec fn decision_record(asked: QuestionV) -> JsonV {
    JsonV::Object(
        map![
            "id"@ => JsonV::Text(asked.id),
            "project"@ => JsonV::Text(asked.project),
            "state"@ => JsonV::Text("open"@),
            "question"@ => JsonV::Text(asked.question),
            "options"@ => json::text_array(asked.options),
            "source"@ => JsonV::Text("commander_report"@),
            "created_at"@ => JsonV::Text(asked.created),
            "resolved_at"@ => JsonV::Null,
            "resolution"@ => JsonV::Null,
        ],
    )
}

/// What the inbox is told of a new decision.
pub open spec fn decision_notice(asked: QuestionV) -> JsonV {
    JsonV::Object(
        map![
            "ts"@ => JsonV::Text(asked.created),
            "type"@ => JsonV::Text("decision_requested"@),
            "project"@ => JsonV::Text(asked.project),
            "status"@ => JsonV::Text("need_decision"@),
            "summary"@ => JsonV::Text(asked.question),
            "decision_id"@ => JsonV::Text(asked.id),
            "options"@ => json::text_array(asked.options),
        ],
    )
}

/// What a question does to registry and decisions: what the project has
/// reported stays.
pub open spec fn ask_outcome(
    registry: Members,
    decisions: Seq<JsonV>,
    asked: QuestionV,
) -> Result<Change, FaultV> {
    match entry_of(registry, asked.project) {
        Ok(members) => Ok(
            Change {
                registry: registry.insert(
                    asked.project,
                    JsonV::Object(
                        members.insert("status"@, JsonV::Text("need_decision"@)).insert(
                            "note"@,
                            JsonV::Text(asked.question),
                        ).insert("updated_at"@, JsonV::Text(asked.created)),
                    ),
                ),
                list: decisions.push(decision_record(asked)),
                notice: decision_notice(asked),
            },
        ),
        Err(reason) => Err(reason),
    }
}

/// Records a question, and gives what the inbox is told of it.
pub fn ask(registry: &mut Object, decisions: &mut Vec<Json>, asked: &Question) -> (r: Result<
    Json,
    Fault,
>)
    ensures
        match r {
            Ok(notice) => ask_outcome(old(registry)@, json::views(old(decisions)@), asked@)
                == Ok::<Change, FaultV>(
                Change {
                    registry: final(registry)@,
                    list: json::views(final(decisions)@),
                    notice: notice@,
                },
            ),
            Err(refusal) => ask_outcome(old(registry)@, json::views(old(decisions)@), asked@)
                == Err::<Change, FaultV>(refusal@) && final(registry)@ == old(registry)@
                && final(decisions)@ == old(decisions)@,
        },
{
    let project = asked.project.as_str();
    let mut object = match entry(registry, project) {
        Ok(object) => object,
        Err(refusal) => {
            return Err(refusal);
        },
    };
    let mut record = Object::new();
    record.put("id", Json::text(asked.id.as_str()));
    record.put("project", Json::text(project));
    record.put("state", Json::text("open"));
    record.put("question", Json::text(asked.question.as_str()));
    record.put("options", array_of(asked.options.as_slice()));
    record.put("source", Json::text("commander_report"));
    record.put("created_at", Json::text(asked.created.as_str()));
    record.put("resolved_at", Json::Null);
    record.put("resolution", Json::Null);
    let record = Json::Object(record);
    proof {
        json::lemma_views_push(decisions@, record);
    }
    decisions.push(record);
    object.put("status", Json::text("need_decision"));
    object.put("note", Json::text(asked.question.as_str()));
    object.put("updated_at", Json::text(asked.created.as_str()));
    registry.put(project, Json::Object(object));
    let mut notice = Object::new();
    notice.put("ts", Json::text(asked.created.as_str()));
    notice.put("type", Json::text("decision_requested"));
    notice.put("project", Json::text(project));
    notice.put("status", Json::text("need_decision"));
    notice.put("summary", Json::text(asked.question.as_str()));
    notice.put("decision_id", Json::text(asked.id.as_str()));
    notice.put("options", array_of(asked.options.as_slice()));
    Ok(Json::Object(notice))
}

pub open spec fn decision_named(id: Seq<char>) -> spec_fn(JsonV) -> bool {
    |decision: JsonV| decision.string("id"@) == id
}

/// A decision after the user has decided.
pub open spec fn resolved_decision(members: Members, answer: Seq<char>, now: Seq<char>) -> JsonV {
    JsonV::Object(
        members.insert("state"@, JsonV::Text("resolved"@)).insert(
            "resolution"@,
            JsonV::Text(answer),
        ).insert("resolved_at"@, JsonV::Text(now)),
    )
}

/// The entry of a project after one of its decisions was resolved: while
/// another is open it still needs a decision, and otherwise it is again what
/// it has reported.
pub open spec fn resolved_entry(
    members: Members,
    decisions: Seq<JsonV>,
    project: Seq<char>,
    answer: Seq<char>,
    now: Seq<char>,
) -> Members {
    let reported = match JsonV::Object(members).optional_string("reported_status"@) {
        Some(status) => status,
        None => "idle"@,
    };
    let open = records::first_where(decisions, records::open_ones(Some(project)));
    let status = match open {
        Some(_) => "need_decision"@,
        None => reported,
    };
    let note = match open {
        Some(i) => decisions[i].string("question"@),
        None => "已拍板："@ + answer,
    };
    members.insert("status"@, JsonV::Text(status)).insert("note"@, JsonV::Text(note)).insert(
        "updated_at"@,
        JsonV::Text(now),
    )
}

/// What the inbox is told of a decision that was resolved.
pub open spec fn resolved_notice(
    id: Seq<char>,
    project: Seq<char>,
    status: JsonV,
    answer: Seq<char>,
    now: Seq<char>,
) -> JsonV {
    JsonV::Object(
        map![
            "ts"@ => JsonV::Text(now),
            "type"@ => JsonV::Text("decision_resolved"@),
            "project"@ => JsonV::Text(project),
            "status"@ => status,
            "summary"@ => JsonV::Text(id + " → "@ + answer),
            "decision_id"@ => JsonV::Text(id),
        ],
    )
}

/// What the answer to a question does to registry and decisions.
pub open spec fn resolve_outcome(
    registry: Members,
    decisions: Seq<JsonV>,
    id: Seq<char>,
    answer: Seq<char>,
    now: Seq<char>,
) -> Result<Change, FaultV> {
    match records::first_where(decisions, decision_named(id)) {
        None => Err(fault::about(FaultKind::UnknownDecision, id)),
        Some(i) => if decisions[i].string("state"@) != "open"@ {
            Err(fault::about(FaultKind::AlreadyResolved, id))
        } else {
            let project = decisions[i].string("project"@);
            let after = decisions.update(
                i,
                resolved_decision(decisions[i]->Object_0, answer, now),
            );
            match entry_of(registry, project) {
                Err(reason) => Err(reason),
                Ok(members) => {
                    let entry = resolved_entry(members, after, project, answer, now);
                    Ok(
                        Change {
                            registry: registry.insert(project, JsonV::Object(entry)),
                            list: after,
                            notice: resolved_notice(id, project, entry["status"@], answer, now),
                        },
                    )
                },
            }
        },
    }
}

fn find_decision(decisions: &[Json], id: &str) -> (r: Option<usize>)
    ensures
        match r {
            Some(i) => i < decisions@.len() && records::first_where(
                json::views(decisions@),
                decision_named(id@),
            ) == Some(i as int),
            None => records::first_where(json::views(decisions@), decision_named(id@)) is None,
        },
{
    let ghost all = json::views(decisions@);
    let mut i: usize = 0;
    while i < decisions.len()
        invariant
            i <= decisions.len(),
            all == json::views(decisions@),
            forall|k: int| 0 <= k < i ==> !decision_named(id@)(#[trigger] all[k]),
        decreases decisions.len() - i,
    {
        proof {
            assert(all[i as int] == decisions@[i as int]@);
        }
        if string_is(&decisions[i], "id", id) {
            proof {
                records::lemma_first_where_is(all, decision_named(id@), i as int);
            }
            return Some(i);
        }
        i = i + 1;
    }
    proof {
        records::lemma_nowhere(all, decision_named(id@));
    }
    None
}

fn first_open(decisions: &[Json], project: &str) -> (r: Option<usize>)
    ensures
        match r {
            Some(i) => i < decisions@.len() && records::first_where(
                json::views(decisions@),
                records::open_ones(Some(project@)),
            ) == Some(i as int),
            None => records::first_where(
                json::views(decisions@),
                records::open_ones(Some(project@)),
            ) is None,
        },
{
    let ghost all = json::views(decisions@);
    let ghost wanted = records::open_ones(Some(project@));
    let mut i: usize = 0;
    while i < decisions.len()
        invariant
            i <= decisions.len(),
            all == json::views(decisions@),
            wanted == records::open_ones(Some(project@)),
            forall|k: int| 0 <= k < i ==> !wanted(#[trigger] all[k]),
        decreases decisions.len() - i,
    {
        proof {
            assert(all[i as int] == decisions@[i as int]@);
        }
        if string_is(&decisions[i], "state", "open") && string_is(
            &decisions[i],
            "project",
            project,
        ) {
            proof {
                records::lemma_first_where_is(all, wanted, i as int);
            }
            return Some(i);
        }
        i = i + 1;
    }
    proof {
        records::lemma_nowhere(all, wanted);
    }
    None
}

/// Resolves a decision, and gives what the inbox is told of it.
pub fn resolve(
    registry: &mut Object,
    decisions: &mut Vec<Json>,
    id: &str,
    answer: &str,
    now: &str,
) -> (r: Result<Json, Fault>)
    ensures
        match r {
            Ok(notice) => resolve_outcome(
                old(registry)@,
                json::views(old(decisions)@),
                id@,
                answer@,
                now@,
            ) == Ok::<Change, FaultV>(
                Change {
                    registry: final(registry)@,
                    list: json::views(final(decisions)@),
                    notice: notice@,
                },
            ),
            Err(refusal) => resolve_outcome(
                old(registry)@,
                json::views(old(decisions)@),
                id@,
                answer@,
                now@,
            ) == Err::<Change, FaultV>(refusal@) && final(registry)@ == old(registry)@
                && final(decisions)@ == old(decisions)@,
        },
{
    let index: usize = match find_decision(decisions.as_slice(), id) {
        Some(i) => i,
        None => {
            return Err(Fault::about(FaultKind::UnknownDecision, id));
        },
    };
    proof {
        assert(json::views(decisions@)[index as int] == decisions@[index as int]@);
    }
    if !string_is(&decisions[index], "state", "open") {
        return Err(Fault::about(FaultKind::AlreadyResolved, id));
    }
    let project = string(&decisions[index], "project");
    let mut object = match entry(registry, project.as_str()) {
        Ok(object) => object,
        Err(refusal) => {
            return Err(refusal);
        },
    };
    proof {
        reveal_strlit("open");
        assert(decisions@[index as int]@.string("state"@).len() > 0);
        assert(decisions@[index as int]@ is Object);
    }
    let mut target: Object = match &decisions[index] {
        Json::Object(members) => members.clone(),
        _ => Object::new(),
    };
    target.put("state", Json::text("resolved"));
    target.put("resolution", Json::text(answer));
    target.put("resolved_at", Json::text(now));
    let record = Json::Object(target);
    proof {
        json::lemma_views_update(decisions@, index as int, record);
    }
    decisions.set(index, record);
    let reported: String = match optional_string(&Json::Object(object.clone()), "reported_status") {
        Some(status) => status,
        None => "idle".to_owned(),
    };
    let open = first_open(decisions.as_slice(), project.as_str());
    let status: String = match open {
        Some(_) => "need_decision".to_owned(),
        None => reported,
    };
    let note: String = match open {
        Some(i) => {
            proof {
                assert(json::views(decisions@)[i as int] == decisions@[i as int]@);
            }
            string(&decisions[i], "question")
        },
        None => cat2("已拍板：", answer),
    };
    let mut notice = Object::new();
    notice.put("ts", Json::text(now));
    notice.put("type", Json::text("decision_resolved"));
    notice.put("project", Json::text(project.as_str()));
    notice.put("status", Json::text(status.as_str()));
    notice.put("summary", Json::Text(cat3(id, " → ", answer)));
    notice.put("decision_id", Json::text(id));
    object.put("status", Json::Text(status));
    object.put("note", Json::Text(note));
    object.put("updated_at", Json::text(now));
    proof {
        reveal_strlit("status");
        reveal_strlit("note");
        reveal_strlit("updated_at");
        assert("status"@.len() == 6 && "note"@.len() == 4 && "updated_at"@.len() == 10);
    }
    registry.put(project.as_str(), Json::Object(object));
    Ok(Json::Object(notice))
}

/// The last characters of a text, at most `limit` of them.
pub open spec fn tail_of(value: Seq<char>, limit: nat) -> Seq<char> {
    if value.len() <= limit {
        value
    } else {
        value.skip(value.len() - limit)
    }
}

/// The last characters of a text, at most `limit` of them.
pub fn tail(value: &str, limit: usize) -> (r: String)
    ensures
        r@ == tail_of(value@, limit as nat),
        r@.len() <= limit,
        text::has_suffix(value@, r@),
{
    let length: usize = value.unicode_len();
    if length <= limit {
        proof {
            assert(value@.skip(0) =~= value@);
        }
        return value.to_owned();
    }
    let out = slice(value, length - limit, length);
    proof {
        assert(out@ =~= value@.skip(length - limit));
    }
    out
}

/// What running a verification command gave.
pub struct ExecutionV {
    pub exit_code: int,
    pub stdout: Seq<char>,
    pub stderr: Seq<char>,
    pub error: Option<Seq<char>>,
    pub started_at: Seq<char>,
    pub finished_at: Seq<char>,
    pub duration_ms: int,
}

/// What running a verification command gave.
pub struct Execution {
    pub exit_code: i32,
    pub stdout: String,
    pub stderr: String,
    pub error: Option<String>,
    pub started_at: String,
    pub finished_at: String,
    pub duration_ms: i64,
}

impl Execution {
    pub open spec fn view(&self) -> ExecutionV {
        ExecutionV {
            exit_code: self.exit_code as int,
            stdout: self.stdout@,
            stderr: self.stderr@,
            error: text::opt_string(self.error),
            started_at: self.started_at@,
            finished_at: self.finished_at@,
            duration_ms: self.duration_ms as int,
        }
    }
}

/// How a verification command ended.
pub enum Ending {
    /// It ran to its end, with an exit code unless a signal ended it.
    Finished(Option<i32>),
    /// It was killed after so many seconds.
    TimedOut(u64),
    /// It could not be started, with the words of the error.
    NotStarted(String),
}

/// The exit code of a verification, and what went wrong: a command that took
/// too long counts as 124, one that did not start as 127, and one that a
/// signal ended as 1.
pub fn judge(ending: &Ending) -> (r: (i32, Option<String>))
    ensures
        match ending {
            Ending::Finished(Some(code)) => r.0 == *code && r.1 is None,
            Ending::Finished(None) => r.0 == 1 && r.1 is None,
            Ending::TimedOut(seconds) => r.0 == 124 && text::opt_string(r.1) == Some(
                "timeout after "@ + text::digits(*seconds as nat) + "s"@,
            ),
            Ending::NotStarted(words) => r.0 == 127 && text::opt_string(r.1) == Some(words@),
        },
{
    match ending {
        Ending::Finished(Some(code)) => (*code, None),
        Ending::Finished(None) => (1, None),
        Ending::TimedOut(seconds) => (
            124,
            Some(cat3("timeout after ", decimal(*seconds).as_str(), "s")),
        ),
        Ending::NotStarted(words) => (127, Some(words.as_str().to_owned())),
    }
}

/// A verification: of which claim, under which label, with which command and
/// where.
pub struct CheckV {
    pub project: Seq<char>,
    pub claim_id: Seq<char>,
    pub label: Seq<char>,
    pub argv: Seq<Seq<char>>,
    pub cwd: Seq<char>,
}

/// A verification: of which claim, under which label, with which command and
/// where.
pub struct Check {
    pub project: String,
    pub claim_id: String,
    pub label: String,
    pub argv: Vec<String>,
    pub cwd: String,
}

impl Check {
    pub open spec fn view(&self) -> CheckV {
        CheckV {
            project: self.project@,
            claim_id: self.claim_id@,
            label: self.label@,
            argv: text::texts(self.argv@),
            cwd: self.cwd@,
        }
    }
}

/// How much of what a command printed is kept.
pub const TAIL_LIMIT: usize = 4000;

/// The evidence that a verification gave.
pub open spec fn check_evidence(check: CheckV, run: ExecutionV, token: Seq<char>) -> JsonV {
    JsonV::Object(
        map![
            "id"@ => JsonV::Text("evidence-"@ + token),
            "kind"@ => JsonV::Text("command"@),
            "label"@ => JsonV::Text(check.label),
            "command"@ => json::text_array(check.argv),
            "cwd"@ => JsonV::Text(check.cwd),
            "source"@ => JsonV::Text("coordinator"@),
            "verified"@ => JsonV::Bool(run.exit_code == 0),
            "exit_code"@ => JsonV::Int(run.exit_code),
            "stdout_tail"@ => JsonV::Text(tail_of(run.stdout, TAIL_LIMIT as nat)),
            "stderr_tail"@ => JsonV::Text(tail_of(run.stderr, TAIL_LIMIT as nat)),
            "error"@ => json::text_or_null(run.error),
            "started_at"@ => JsonV::Text(run.started_at),
            "finished_at"@ => JsonV::Text(run.finished_at),
            "duration_ms"@ => JsonV::Int(if run.duration_ms < 0 { 0 } else { run.duration_ms }),
        ],
    )
}

fn make_evidence(check: &Check, run: &Execution, token: &str) -> (r: Json)
    ensures
        r@ == check_evidence(check@, run@, token@),
{
    let error: Option<&str> = match &run.error {
        Some(words) => Some(words.as_str()),
        None => None,
    };
    let mut object = Object::new();
    object.put("id", Json::Text(cat2("evidence-", token)));
    object.put("kind", Json::text("command"));
    object.put("label", Json::text(check.label.as_str()));
    object.put("command", array_of(check.argv.as_slice()));
    object.put("cwd", Json::text(check.cwd.as_str()));
    object.put("source", Json::text("coordinator"));
    object.put("verified", Json::Bool(run.exit_code == 0));
    object.put("exit_code", Json::integer(run.exit_code as i64));
    object.put("stdout_tail", Json::Text(tail(run.stdout.as_str(), TAIL_LIMIT)));
    object.put("stderr_tail", Json::Text(tail(run.stderr.as_str(), TAIL_LIMIT)));
    object.put("error", Json::optional(error));
    object.put("started_at", Json::text(run.started_at.as_str()));
    object.put("finished_at", Json::text(run.finished_at.as_str()));
    object.put(
        "duration_ms",
        Json::integer(if run.duration_ms < 0 { 0 } else { run.duration_ms }),
    );
    Json::Object(object)
}

/// A claim with one more piece of evidence: none is lost.
pub open spec fn with_evidence(members: Members, evidence: JsonV) -> Result<Members, FaultV> {
    let held = if members.contains_key("evidence"@) {
        members["evidence"@]
    } else {
        JsonV::Array(Seq::empty())
    };
    match held {
        JsonV::Array(items) => Ok(
            members.insert("evidence"@, JsonV::Array(items.push(evidence))),
        ),
        _ => Err(fault::plain(FaultKind::BadEvidence)),
    }
}

/// A claim after a verification: what is accepted stays so, and otherwise the
/// last verification counts.
pub open spec fn checked_claim(members: Members, passed: bool, finished: Seq<char>) -> Members {
    let judged = if JsonV::Object(members).optional_string("state"@) == Some("accepted"@) {
        members
    } else {
        members.insert(
            "state"@,
            JsonV::Text(if passed { "verified"@ } else { "reported"@ }),
        )
    };
    judged.insert(
        if passed { "verified_at"@ } else { "verification_failed_at"@ },
        JsonV::Text(finished),
    )
}

/// A member, or a text where it is missing.
pub open spec fn member_or(members: Members, name: Seq<char>, other: Seq<char>) -> JsonV {
    if members.contains_key(name) {
        members[name]
    } else {
        JsonV::Text(other)
    }
}

fn member_or_text(object: &Object, name: &str, other: &str) -> (r: Json)
    ensures
        r@ == member_or(object@, name@, other@),
{
    match object.get(name) {
        Some(value) => value.clone(),
        None => Json::text(other),
    }
}

/// The registry after the state of a claim has changed: the entry follows
/// where the claim is the one it points to.
pub open spec fn with_claim_state(
    registry: Members,
    project: Seq<char>,
    claim_id: Seq<char>,
    state: JsonV,
    now: Seq<char>,
) -> Members {
    let entry = registry[project];
    if entry.optional_string("claim_id"@) == Some(claim_id) {
        registry.insert(
            project,
            JsonV::Object(
                entry->Object_0.insert("claim_state"@, state).insert(
                    "updated_at"@,
                    JsonV::Text(now),
                ),
            ),
        )
    } else {
        registry
    }
}

fn follow_claim(registry: &mut Object, project: &str, claim_id: &str, state: Json, now: &str)
    requires
        old(registry)@.contains_key(project@),
    ensures
        final(registry)@ == with_claim_state(
            old(registry)@,
            project@,
            claim_id@,
            state@,
            now@,
        ),
{
    let held: Option<Object> = match registry.get(project) {
        Some(value) => match optional_string(value, "claim_id") {
            Some(id) => if same(id.as_str(), claim_id) {
                match value {
                    Json::Object(members) => Some(members.clone()),
                    _ => None,
                }
            } else {
                None
            },
            None => None,
        },
        None => None,
    };
    match held {
        Some(mut members) => {
            members.put("claim_state", state);
            members.put("updated_at", Json::text(now));
            registry.put(project, Json::Object(members));
        },
        None => {},
    }
}

/// What the inbox is told of a verification.
pub open spec fn check_notice(
    check: CheckV,
    run: ExecutionV,
    status: JsonV,
    token: Seq<char>,
) -> JsonV {
    let passed = run.exit_code == 0;
    JsonV::Object(
        map![
            "ts"@ => JsonV::Text(run.finished_at),
            "type"@ => JsonV::Text(
                if passed { "verification_passed"@ } else { "verification_failed"@ },
            ),
            "project"@ => JsonV::Text(check.project),
            "status"@ => status,
            "summary"@ => JsonV::Text(
                check.label + ": "@ + if passed { "通过"@ } else { "失败"@ },
            ),
            "claim_id"@ => JsonV::Text(check.claim_id),
            "evidence_id"@ => JsonV::Text("evidence-"@ + token),
            "exit_code"@ => JsonV::Int(run.exit_code),
        ],
    )
}

/// What a verification does to registry and claims.
pub open spec fn verify_outcome(
    registry: Members,
    claims: Seq<JsonV>,
    check: CheckV,
    run: ExecutionV,
    token: Seq<char>,
) -> Result<Change, FaultV> {
    let passed = run.exit_code == 0;
    if !registry.contains_key(check.project) {
        Err(fault::about(FaultKind::Unregistered, check.project))
    } else {
        match records::claim_index(claims, check.project, Some(check.claim_id)) {
            None => Err(fault::about(FaultKind::ClaimVanished, check.claim_id)),
            Some(i) => match claims[i] {
                JsonV::Object(members) => match with_evidence(
                    members,
                    check_evidence(check, run, token),
                ) {
                    Err(reason) => Err(reason),
                    Ok(added) => {
                        let claim = checked_claim(added, passed, run.finished_at);
                        Ok(
                            Change {
                                registry: with_claim_state(
                                    registry,
                                    check.project,
                                    check.claim_id,
                                    member_or(claim, "state"@, "reported"@),
                                    run.finished_at,
                                ),
                                list: claims.update(i, JsonV::Object(claim)),
                                notice: check_notice(
                                    check,
                                    run,
                                    member_or(claim, "status"@, "unknown"@),
                                    token,
                                ),
                            },
                        )
                    },
                },
                _ => Err(fault::plain(FaultKind::NotAnObject)),
            },
        }
    }
}

fn add_evidence(object: &mut Object, evidence: Json) -> (r: Result<(), Fault>)
    ensures
        match r {
            Ok(()) => with_evidence(old(object)@, evidence@) == Ok::<Members, FaultV>(
                final(object)@,
            ),
            Err(refusal) => with_evidence(old(object)@, evidence@) == Err::<Members, FaultV>(
                refusal@,
            ) && final(object)@ == old(object)@,
        },
{
    let held: Vec<Json> = match object.get("evidence") {
        Some(Json::Array(items)) => clone_items(items),
        Some(_) => {
            return Err(Fault::plain(FaultKind::BadEvidence));
        },
        None => {
            let none: Vec<Json> = Vec::new();
            proof {
                assert(json::views(none@) =~= Seq::<JsonV>::empty());
            }
            none
        },
    };
    let mut items = held;
    proof {
        json::lemma_views_push(items@, evidence);
    }
    items.push(evidence);
    object.put("evidence", Json::Array(items));
    Ok(())
}

/// Records the outcome of a verification, and gives what the inbox is told of
/// it.
pub fn settle_verification(
    registry: &mut Object,
    claims: &mut Vec<Json>,
    check: &Check,
    run: &Execution,
    token: &str,
) -> (r: Result<Json, Fault>)
    ensures
        match r {
            Ok(notice) => verify_outcome(
                old(registry)@,
                json::views(old(claims)@),
                check@,
                run@,
                token@,
            ) == Ok::<Change, FaultV>(
                Change {
                    registry: final(registry)@,
                    list: json::views(final(claims)@),
                    notice: notice@,
                },
            ),
            Err(refusal) => verify_outcome(
                old(registry)@,
                json::views(old(claims)@),
                check@,
                run@,
                token@,
            ) == Err::<Change, FaultV>(refusal@) && final(registry)@ == old(registry)@
                && final(claims)@ == old(claims)@,
        },
{
    let project = check.project.as_str();
    let passed = run.exit_code == 0;
    if !registry.contains(project) {
        return Err(unregistered(project));
    }
    let index: usize = match find_claim(
        claims.as_slice(),
        project,
        Some(check.claim_id.as_str()),
    ) {
        Some(i) => i,
        None => {
            return Err(Fault::about(FaultKind::ClaimVanished, check.claim_id.as_str()));
        },
    };
    proof {
        assert(json::views(claims@)[index as int] == claims@[index as int]@);
    }
    let mut object: Object = match &claims[index] {
        Json::Object(members) => members.clone(),
        _ => {
            return Err(Fault::plain(FaultKind::NotAnObject));
        },
    };
    match add_evidence(&mut object, make_evidence(check, run, token)) {
        Ok(()) => {},
        Err(refusal) => {
            return Err(refusal);
        },
    }
    let accepted = match object.get("state") {
        Some(value) => match value.as_str() {
            Some(state) => same(state, "accepted"),
            None => false,
        },
        None => false,
    };
    if !accepted {
        object.put("state", Json::text(if passed { "verified" } else { "reported" }));
    }
    object.put(
        if passed { "verified_at" } else { "verification_failed_at" },
        Json::text(run.finished_at.as_str()),
    );
    let status = member_or_text(&object, "status", "unknown");
    let claim_state = member_or_text(&object, "state", "reported");
    follow_claim(
        registry,
        project,
        check.claim_id.as_str(),
        claim_state,
        run.finished_at.as_str(),
    );
    let record = Json::Object(object);
    proof {
        json::lemma_views_update(claims@, index as int, record);
    }
    claims.set(index, record);
    let mut notice = Object::new();
    notice.put("ts", Json::text(run.finished_at.as_str()));
    notice.put(
        "type",
        Json::text(if passed { "verification_passed" } else { "verification_failed" }),
    );
    notice.put("project", Json::text(project));
    notice.put("status", status);
    notice.put(
        "summary",
        Json::Text(cat3(check.label.as_str(), ": ", if passed { "通过" } else { "失败" })),
    );
    notice.put("claim_id", Json::text(check.claim_id.as_str()));
    notice.put("evidence_id", Json::Text(cat2("evidence-", token)));
    notice.put("exit_code", Json::integer(run.exit_code as i64));
    Ok(Json::Object(notice))
}

/// The acceptance of a claim: by whom, with which note, and whether without a
/// verification.
pub struct AcceptanceV {
    pub project: Seq<char>,
    pub claim_id: Option<Seq<char>>,
    pub note: Seq<char>,
    pub force: bool,
    pub operator: Seq<char>,
    pub now: Seq<char>,
}

/// The acceptance of a claim: by whom, with which note, and whether without a
/// verification.
pub struct Acceptance {
    pub project: String,
    pub claim_id: Option<String>,
    pub note: String,
    pub force: bool,
    pub operator: String,
    pub now: String,
}

impl Acceptance {
    pub open spec fn view(&self) -> AcceptanceV {
        AcceptanceV {
            project: self.project@,
            claim_id: text::opt_string(self.claim_id),
            note: self.note@,
            force: self.force,
            operator: self.operator@,
            now: self.now@,
        }
    }
}

/// A claim that was accepted: when, by whom and why is kept with it.
pub open spec fn accepted_claim(members: Members, given: AcceptanceV) -> Members {
    members.insert("state"@, JsonV::Text("accepted"@)).insert(
        "accepted_at"@,
        JsonV::Text(given.now),
    ).insert("accepted_by"@, JsonV::Text(given.operator)).insert(
        "acceptance_note"@,
        if given.note.len() == 0 { JsonV::Null } else { JsonV::Text(given.note) },
    )
}

/// What the inbox is told of an acceptance.
pub open spec fn accept_notice(given: AcceptanceV, claim_id: Seq<char>) -> JsonV {
    JsonV::Object(
        map![
            "ts"@ => JsonV::Text(given.now),
            "type"@ => JsonV::Text("claim_accepted"@),
            "project"@ => JsonV::Text(given.project),
            "status"@ => JsonV::Text("done"@),
            "summary"@ => JsonV::Text(
                if given.note.len() == 0 { "用户已验收"@ } else { given.note },
            ),
            "claim_id"@ => JsonV::Text(claim_id),
        ],
    )
}

/// What an acceptance does to registry and claims, and which claim it is of.
pub open spec fn accept_outcome(
    registry: Members,
    claims: Seq<JsonV>,
    given: AcceptanceV,
) -> Result<(Change, Seq<char>), FaultV> {
    if !registry.contains_key(given.project) {
        Err(fault::about(FaultKind::Unregistered, given.project))
    } else {
        match records::claim_index(claims, given.project, given.claim_id) {
            None => Err(fault::about(FaultKind::NothingToAccept, given.project)),
            Some(i) => {
                let claim = claims[i];
                let id = claim.string("id"@);
                if claim.string("status"@) != "done"@ {
                    Err(fault::plain(FaultKind::NotDone))
                } else if claim.string("state"@) != "verified"@ && !given.force {
                    Err(fault::plain(FaultKind::NotVerified))
                } else {
                    Ok(
                        (
                            Change {
                                registry: with_claim_state(
                                    registry,
                                    given.project,
                                    id,
                                    JsonV::Text("accepted"@),
                                    given.now,
                                ),
                                list: claims.update(
                                    i,
                                    JsonV::Object(accepted_claim(claim->Object_0, given)),
                                ),
                                notice: accept_notice(given, id),
                            },
                            id,
                        ),
                    )
                }
            },
        }
    }
}

/// Accepts a completed claim that was verified, or one that was not where the
/// user forces it. Gives what the inbox is told of it, and the identifier of
/// the claim.
pub fn accept(registry: &mut Object, claims: &mut Vec<Json>, given: &Acceptance) -> (r: Result<
    (Json, String),
    Fault,
>)
    ensures
        match r {
            Ok((notice, id)) => accept_outcome(
                old(registry)@,
                json::views(old(claims)@),
                given@,
            ) == Ok::<(Change, Seq<char>), FaultV>(
                (
                    Change {
                        registry: final(registry)@,
                        list: json::views(final(claims)@),
                        notice: notice@,
                    },
                    id@,
                ),
            ),
            Err(refusal) => accept_outcome(old(registry)@, json::views(old(claims)@), given@)
                == Err::<(Change, Seq<char>), FaultV>(refusal@) && final(registry)@
                == old(registry)@ && final(claims)@ == old(claims)@,
        },
{
    let project = given.project.as_str();
    let now = given.now.as_str();
    if !registry.contains(project) {
        return Err(unregistered(project));
    }
    let wanted: Option<&str> = match &given.claim_id {
        Some(id) => Some(id.as_str()),
        None => None,
    };
    let index: usize = match find_claim(claims.as_slice(), project, wanted) {
        Some(i) => i,
        None => {
            return Err(Fault::about(FaultKind::NothingToAccept, project));
        },
    };
    proof {
        assert(json::views(claims@)[index as int] == claims@[index as int]@);
    }
    if !string_is(&claims[index], "status", "done") {
        return Err(Fault::plain(FaultKind::NotDone));
    }
    if !string_is(&claims[index], "state", "verified") && !given.force {
        return Err(Fault::plain(FaultKind::NotVerified));
    }
    proof {
        reveal_strlit("done");
        assert(claims@[index as int]@.string("status"@).len() > 0);
        assert(claims@[index as int]@ is Object);
    }
    let id = string(&claims[index], "id");
    let mut object: Object = match &claims[index] {
        Json::Object(members) => members.clone(),
        _ => Object::new(),
    };
    let noted = !given.note.as_str().is_empty();
    object.put("state", Json::text("accepted"));
    object.put("accepted_at", Json::text(now));
    object.put("accepted_by", Json::text(given.operator.as_str()));
    object.put(
        "acceptance_note",
        if noted { Json::text(given.note.as_str()) } else { Json::Null },
    );
    follow_claim(registry, project, id.as_str(), Json::text("accepted"), now);
    let record = Json::Object(object);
    proof {
        json::lemma_views_update(claims@, index as int, record);
    }
    claims.set(index, record);
    let mut notice = Object::new();
    notice.put("ts", Json::text(now));
    notice.put("type", Json::text("claim_accepted"));
    notice.put("project", Json::text(project));
    notice.put("status", Json::text("done"));
    notice.put(
        "summary",
        Json::text(if noted { given.note.as_str() } else { "用户已验收" }),
    );
    notice.put("claim_id", Json::text(id.as_str()));
    Ok((Json::Object(notice), id))
}

} // verus!
