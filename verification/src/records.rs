//! Questions about the documents: which status a project has, which decisions
//! are open, which claim is meant.
use vstd::prelude::*;
use crate::fault::{Fault, FaultKind};
use crate::fault;
use crate::json::{string_is, Json, JsonV, Members, Object};
use crate::json;
use crate::text;
use crate::text::same;

verus! {

/// The name under which Herdr knows the plugin.
pub const PLUGIN_ID: &'static str = "sm-yjr.herdr-coordinator";

/// The statuses that a project can have.
pub open spec fn is_status(status: Seq<char>) -> bool {
    is_reported_status(status) || status == "need_decision"@
}

/// The statuses that a commander can report.
pub open spec fn is_reported_status(status: Seq<char>) -> bool {
    status == "working"@ || status == "idle"@ || status == "done"@ || status == "blocked"@
}

pub fn known_status(status: &str) -> (r: bool)
    ensures
        r == is_status(status@),
{
    reported_status(status) || same(status, "need_decision")
}

pub fn reported_status(status: &str) -> (r: bool)
    ensures
        r == is_reported_status(status@),
{
    same(status, "working") || same(status, "idle") || same(status, "done") || same(
        status,
        "blocked",
    )
}

/// A reported status as it is, anything else as `idle`.
pub open spec fn reported_or_idle(status: Seq<char>) -> Seq<char> {
    if is_reported_status(status) {
        status
    } else {
        "idle"@
    }
}

/// The models of a sequence of borrowed values.
pub open spec fn ref_views(values: Seq<&Json>) -> Seq<JsonV> {
    Seq::new(values.len(), |i: int| values[i]@)
}

/// The position of the first value that `wanted` holds of.
pub open spec fn first_where(values: Seq<JsonV>, wanted: spec_fn(JsonV) -> bool) -> Option<int>
    decreases values.len(),
{
    if values.len() == 0 {
        None
    } else {
        match first_where(values.drop_last(), wanted) {
            Some(i) => Some(i),
            None => if wanted(values.last()) {
                Some(values.len() - 1)
            } else {
                None
            },
        }
    }
}

/// The position of the last value that `wanted` holds of.
pub open spec fn last_where(values: Seq<JsonV>, wanted: spec_fn(JsonV) -> bool) -> Option<int>
    decreases values.len(),
{
    if values.len() == 0 {
        None
    } else if wanted(values.last()) {
        Some(values.len() - 1)
    } else {
        last_where(values.drop_last(), wanted)
    }
}

/// `first_where` finds a value that is wanted, and none before it is.
pub proof fn lemma_first_where(values: Seq<JsonV>, wanted: spec_fn(JsonV) -> bool)
    ensures
        match first_where(values, wanted) {
            Some(i) => 0 <= i < values.len() && wanted(values[i]) && forall|k: int|
                0 <= k < i ==> !wanted(#[trigger] values[k]),
            None => forall|k: int| 0 <= k < values.len() ==> !wanted(#[trigger] values[k]),
        },
    decreases values.len(),
{
    if values.len() > 0 {
        lemma_first_where(values.drop_last(), wanted);
        let rest = values.drop_last();
        assert forall|k: int| 0 <= k < rest.len() implies rest[k] == values[k] by {}
        match first_where(rest, wanted) {
            Some(i) => {
                assert forall|k: int| 0 <= k < i implies !wanted(#[trigger] values[k]) by {
                    assert(!wanted(rest[k]));
                }
            },
            None => {
                assert forall|k: int| 0 <= k < rest.len() implies !wanted(#[trigger] values[k]) by {
                    assert(!wanted(rest[k]));
                }
            },
        }
    }
}

/// `last_where` finds a value that is wanted, and none behind it is.
pub proof fn lemma_last_where(values: Seq<JsonV>, wanted: spec_fn(JsonV) -> bool)
    ensures
        match last_where(values, wanted) {
            Some(i) => 0 <= i < values.len() && wanted(values[i]) && forall|k: int|
                i < k < values.len() ==> !wanted(#[trigger] values[k]),
            None => forall|k: int| 0 <= k < values.len() ==> !wanted(#[trigger] values[k]),
        },
    decreases values.len(),
{
    if values.len() > 0 && !wanted(values.last()) {
        lemma_last_where(values.drop_last(), wanted);
        let rest = values.drop_last();
        match last_where(rest, wanted) {
            Some(i) => {
                assert forall|k: int| i < k < values.len() implies !wanted(#[trigger] values[k]) by {
                    if k < rest.len() {
                        assert(!wanted(rest[k]));
                    }
                }
            },
            None => {
                assert forall|k: int| 0 <= k < values.len() implies !wanted(
                    #[trigger] values[k],
                ) by {
                    if k < rest.len() {
                        assert(!wanted(rest[k]));
                    }
                }
            },
        }
    }
}

/// The position that `first_where` finds is the only one with its property.
pub proof fn lemma_first_where_is(values: Seq<JsonV>, wanted: spec_fn(JsonV) -> bool, i: int)
    requires
        0 <= i < values.len(),
        wanted(values[i]),
        forall|k: int| 0 <= k < i ==> !wanted(#[trigger] values[k]),
    ensures
        first_where(values, wanted) == Some(i),
{
    lemma_first_where(values, wanted);
    match first_where(values, wanted) {
        Some(j) => {
            if j < i {
                assert(!wanted(values[j]));
            } else if i < j {
                assert(!wanted(values[i]));
            }
        },
        None => {
            assert(!wanted(values[i]));
        },
    }
}

/// The position that `last_where` finds is the only one with its property.
pub proof fn lemma_last_where_is(values: Seq<JsonV>, wanted: spec_fn(JsonV) -> bool, i: int)
    requires
        0 <= i < values.len(),
        wanted(values[i]),
        forall|k: int| i < k < values.len() ==> !wanted(#[trigger] values[k]),
    ensures
        last_where(values, wanted) == Some(i),
{
    lemma_last_where(values, wanted);
    match last_where(values, wanted) {
        Some(j) => {
            if i < j {
                assert(!wanted(values[j]));
            } else if j < i {
                assert(!wanted(values[i]));
            }
        },
        None => {
            assert(!wanted(values[i]));
        },
    }
}

/// Where nothing is wanted, nothing is found.
pub proof fn lemma_nowhere(values: Seq<JsonV>, wanted: spec_fn(JsonV) -> bool)
    requires
        forall|k: int| 0 <= k < values.len() ==> !wanted(#[trigger] values[k]),
    ensures
        first_where(values, wanted) is None,
        last_where(values, wanted) is None,
{
    lemma_first_where(values, wanted);
    lemma_last_where(values, wanted);
}

/// Two lists in which the same positions are wanted have the same first one.
pub proof fn lemma_first_where_same(
    left: Seq<JsonV>,
    right: Seq<JsonV>,
    wanted: spec_fn(JsonV) -> bool,
)
    requires
        left.len() == right.len(),
        forall|k: int| 0 <= k < left.len() ==> wanted(#[trigger] left[k]) == wanted(right[k]),
    ensures
        first_where(left, wanted) == first_where(right, wanted),
{
    lemma_first_where(left, wanted);
    match first_where(left, wanted) {
        Some(i) => {
            assert forall|k: int| 0 <= k < i implies !wanted(#[trigger] right[k]) by {
                assert(!wanted(left[k]));
            }
            assert(wanted(left[i]));
            lemma_first_where_is(right, wanted, i);
        },
        None => {
            assert forall|k: int| 0 <= k < right.len() implies !wanted(#[trigger] right[k]) by {
                assert(!wanted(left[k]));
            }
            lemma_nowhere(right, wanted);
        },
    }
}

/// A decision is open, and is one of `project` where a project is named.
pub open spec fn is_open(decision: JsonV, project: Option<Seq<char>>) -> bool {
    &&& decision.string("state"@) == "open"@
    &&& match project {
        Some(name) => decision.string("project"@) == name,
        None => true,
    }
}

pub open spec fn open_ones(project: Option<Seq<char>>) -> spec_fn(JsonV) -> bool {
    |decision: JsonV| is_open(decision, project)
}

fn open_decision(decision: &Json, project: Option<&str>) -> (r: bool)
    ensures
        r == is_open(decision@, text::opt_text(project)),
{
    string_is(decision, "state", "open") && match project {
        Some(name) => string_is(decision, "project", name),
        None => true,
    }
}

/// The open decisions, those of one project where it is named, in their order.
pub fn open_decisions<'a>(decisions: &'a [Json], project: Option<&str>) -> (r: Vec<&'a Json>)
    ensures
        ref_views(r@) == json::views(decisions@).filter(open_ones(text::opt_text(project))),
{
    let mut out: Vec<&'a Json> = Vec::new();
    let mut i: usize = 0;
    let ghost all = json::views(decisions@);
    let ghost wanted = open_ones(text::opt_text(project));
    proof {
        reveal(Seq::filter);
        assert(ref_views(out@) =~= all.take(0).filter(wanted));
    }
    while i < decisions.len()
        invariant
            i <= decisions.len(),
            all == json::views(decisions@),
            wanted == open_ones(text::opt_text(project)),
            ref_views(out@) == all.take(i as int).filter(wanted),
        decreases decisions.len() - i,
    {
        let ghost pre = out@;
        proof {
            reveal(Seq::filter);
            assert(all.take(i + 1).drop_last() =~= all.take(i as int));
            assert(all.take(i + 1).last() == decisions@[i as int]@);
        }
        if open_decision(&decisions[i], project) {
            out.push(&decisions[i]);
            proof {
                assert(ref_views(out@) =~= ref_views(pre).push(decisions@[i as int]@));
            }
        }
        i = i + 1;
    }
    proof {
        assert(all.take(i as int) =~= all);
    }
    out
}

/// Some decision of `project` is open.
pub open spec fn has_open(decisions: Seq<JsonV>, project: Seq<char>) -> bool {
    exists|i: int| 0 <= i < decisions.len() && is_open(#[trigger] decisions[i], Some(project))
}

/// Whether some decision of `project` is open.
pub fn any_open(decisions: &[Json], project: &str) -> (r: bool)
    ensures
        r == has_open(json::views(decisions@), project@),
{
    let mut i: usize = 0;
    while i < decisions.len()
        invariant
            i <= decisions.len(),
            forall|k: int|
                0 <= k < i ==> !is_open(#[trigger] json::views(decisions@)[k], Some(project@)),
        decreases decisions.len() - i,
    {
        proof {
            assert(json::views(decisions@)[i as int] == decisions@[i as int]@);
        }
        if open_decision(&decisions[i], Some(project)) {
            return true;
        }
        i = i + 1;
    }
    false
}

/// The status a project had reported, its status where it has reported none.
pub open spec fn last_reported(entry: JsonV) -> Seq<char> {
    let found = match entry.get("reported_status"@) {
        Some(value) => Some(value),
        None => entry.get("status"@),
    };
    match found {
        Some(value) => match value.as_text() {
            Some(status) => reported_or_idle(status),
            None => "idle"@,
        },
        None => "idle"@,
    }
}

/// The status of a project: an open decision overrides what was reported.
pub open spec fn effective(entry: JsonV, decisions: Seq<JsonV>, project: Seq<char>) -> Seq<char> {
    if has_open(decisions, project) {
        "need_decision"@
    } else {
        last_reported(entry)
    }
}

/// The status of a project: an open decision overrides what was reported.
pub fn effective_status(entry: &Json, decisions: &[Json], project: &str) -> (r: String)
    ensures
        r@ == effective(entry@, json::views(decisions@), project@),
{
    if any_open(decisions, project) {
        return "need_decision".to_owned();
    }
    let found = match entry.get("reported_status") {
        Some(value) => Some(value),
        None => entry.get("status"),
    };
    match found {
        Some(value) => match value.as_str() {
            Some(status) => if reported_status(status) {
                status.to_owned()
            } else {
                "idle".to_owned()
            },
            None => "idle".to_owned(),
        },
        None => "idle".to_owned(),
    }
}

pub open spec fn claim_of(project: Seq<char>) -> spec_fn(JsonV) -> bool {
    |claim: JsonV| claim.string("project"@) == project
}

pub open spec fn claim_named(project: Seq<char>, id: Seq<char>) -> spec_fn(JsonV) -> bool {
    |claim: JsonV| claim.string("project"@) == project && claim.string("id"@) == id
}

/// Which claim of a project is meant: the first with the identifier, or the
/// last one of the project where none is given.
pub open spec fn claim_index(
    claims: Seq<JsonV>,
    project: Seq<char>,
    claim_id: Option<Seq<char>>,
) -> Option<int> {
    match claim_id {
        Some(id) => first_where(claims, claim_named(project, id)),
        None => last_where(claims, claim_of(project)),
    }
}

/// The claim that is meant.
pub open spec fn claim_meant(
    claims: Seq<JsonV>,
    project: Seq<char>,
    claim_id: Option<Seq<char>>,
) -> Option<JsonV> {
    match claim_index(claims, project, claim_id) {
        Some(i) => Some(claims[i]),
        None => None,
    }
}

/// The position of the claim that is meant.
pub fn find_claim(claims: &[Json], project: &str, claim_id: Option<&str>) -> (r: Option<usize>)
    ensures
        match r {
            Some(i) => i < claims@.len() && claim_index(
                json::views(claims@),
                project@,
                text::opt_text(claim_id),
            ) == Some(i as int),
            None => claim_index(json::views(claims@), project@, text::opt_text(claim_id)) is None,
        },
{
    let ghost all = json::views(claims@);
    match claim_id {
        Some(id) => {
            let mut i: usize = 0;
            while i < claims.len()
                invariant
                    i <= claims.len(),
                    all == json::views(claims@),
                    text::opt_text(claim_id) == Some(id@),
                    forall|k: int| 0 <= k < i ==> !claim_named(project@, id@)(#[trigger] all[k]),
                decreases claims.len() - i,
            {
                proof {
                    assert(all[i as int] == claims@[i as int]@);
                }
                if string_is(&claims[i], "project", project) && string_is(&claims[i], "id", id) {
                    proof {
                        lemma_first_where_is(all, claim_named(project@, id@), i as int);
                    }
                    return Some(i);
                }
                i = i + 1;
            }
            proof {
                lemma_nowhere(all, claim_named(project@, id@));
            }
            None
        },
        None => {
            let mut i: usize = claims.len();
            while i > 0
                invariant
                    i <= claims.len(),
                    all == json::views(claims@),
                    claim_id is None,
                    forall|k: int| i <= k < all.len() ==> !claim_of(project@)(#[trigger] all[k]),
                decreases i,
            {
                proof {
                    assert(all[i - 1] == claims@[i - 1]@);
                }
                if string_is(&claims[i - 1], "project", project) {
                    proof {
                        lemma_last_where_is(all, claim_of(project@), i - 1);
                    }
                    return Some(i - 1);
                }
                i = i - 1;
            }
            proof {
                lemma_nowhere(all, claim_of(project@));
            }
            None
        },
    }
}

/// The claim that is meant: the first with the identifier, or the last one of
/// the project where none is given.
pub fn latest_claim<'a>(claims: &'a [Json], project: &str, claim_id: Option<&str>) -> (r: Option<
    &'a Json,
>)
    ensures
        json::opt_json(r) == claim_meant(
            json::views(claims@),
            project@,
            text::opt_text(claim_id),
        ),
{
    match find_claim(claims, project, claim_id) {
        Some(i) => Some(&claims[i]),
        None => None,
    }
}

/// The claim that is meant, to be changed in place.
pub fn latest_claim_mut<'a>(
    claims: &'a mut Vec<Json>,
    project: &str,
    claim_id: Option<&str>,
) -> (r: Option<&'a mut Json>)
    ensures
        match r {
            Some(claim) => ({
                let index = claim_index(
                    json::views(old(claims)@),
                    project@,
                    text::opt_text(claim_id),
                );
                &&& index is Some
                &&& 0 <= index->0 < old(claims)@.len()
                &&& *claim == old(claims)@[index->0]
                &&& final(claims)@ == old(claims)@.update(index->0, *final(claim))
            }),
            None => claim_index(
                json::views(old(claims)@),
                project@,
                text::opt_text(claim_id),
            ) is None && final(claims)@ == old(claims)@,
        },
{
    match find_claim(claims.as_slice(), project, claim_id) {
        Some(i) => Some(&mut claims[i]),
        None => None,
    }
}

/// The members of an object, to be changed in place; any other value is
/// refused.
pub fn obj_mut(value: &mut Json) -> (r: Result<&mut Object, Fault>)
    ensures
        match r {
            Ok(object) => *old(value) == Json::Object(*object) && *final(value) == Json::Object(
                *final(object),
            ),
            Err(refusal) => old(value)@.as_object() is None && *final(value) == *old(value)
                && refusal@ == fault::plain(FaultKind::NotAnObject),
        },
{
    match value {
        Json::Object(object) => Ok(object),
        _ => Err(Fault::plain(FaultKind::NotAnObject)),
    }
}

/// A member set by name, as in `value[name] = member`: null becomes an object.
pub open spec fn with_member(value: JsonV, name: Seq<char>, member: JsonV) -> JsonV {
    match value {
        JsonV::Object(members) => JsonV::Object(members.insert(name, member)),
        _ => JsonV::Object(Map::<Seq<char>, JsonV>::empty().insert(name, member)),
    }
}

/// Members can be set by name: the value is an object or null.
pub open spec fn takes_members(value: JsonV) -> bool {
    value is Object || value is Null
}

/// Whether members can be set by name.
pub fn settable(value: &Json) -> (r: bool)
    ensures
        r == takes_members(value@),
{
    match value {
        Json::Object(_) | Json::Null => true,
        _ => false,
    }
}

/// Sets a member by name.
pub fn set_member(value: &mut Json, name: &str, member: Json)
    requires
        takes_members(old(value)@),
    ensures
        final(value)@ == with_member(old(value)@, name@, member@),
        final(value)@ is Object,
{
    let mut taken = Json::Null;
    std::mem::swap(&mut taken, value);
    let mut object = match taken {
        Json::Object(object) => object,
        _ => Object::new(),
    };
    object.put(name, member);
    *value = Json::Object(object);
}

} // verus!
