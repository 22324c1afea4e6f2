//! What the listings are for: which records are shown, in which order, and
//! what is said of each.
use vstd::prelude::*;
use crate::claim_laws;
use crate::json::{JsonV, Members};
use crate::json;
use crate::listing;
use crate::outside;
use crate::project_laws;
use crate::records;
use crate::runtime;
use crate::text;

verus! {

/// The words differ: in length, or in a letter.
proof fn lemma_words()
    ensures
        "id"@.len() == 2 && "id"@[0] == 'i',
        "ts"@.len() == 2 && "ts"@[0] == 't',
        "kind"@.len() == 4 && "kind"@[1] == 'i',
        "name"@.len() == 4 && "name"@[1] == 'a',
        "note"@.len() == 4 && "note"@[1] == 'o',
        "open"@.len() == 4 && "open"@[1] == 'p',
        "state"@.len() == 5,
        "action"@.len() == 6 && "action"@[0] == 'a',
        "reason"@.len() == 6 && "reason"@[0] == 'r',
        "status"@.len() == 6 && "status"@[0] == 's',
        "options"@.len() == 7 && "options"@[0] == 'o',
        "project"@.len() == 7 && "project"@[0] == 'p',
        "summary"@.len() == 7 && "summary"@[0] == 's',
        "claim_id"@.len() == 8 && "claim_id"@[0] == 'c',
        "evidence"@.len() == 8 && "evidence"@[0] == 'e',
        "priority"@.len() == 8 && "priority"@[0] == 'p',
        "question"@.len() == 8 && "question"@[0] == 'q',
        "commander"@.len() == 9,
        "confidence"@.len() == 10 && "confidence"@[0] == 'c',
        "resolution"@.len() == 10 && "resolution"@[0] == 'r',
        "updated_at"@.len() == 10 && "updated_at"@[0] == 'u',
        "claim_state"@.len() == 11 && "claim_state"@[0] == 'c',
        "decision_id"@.len() == 11 && "decision_id"@[0] == 'd',
        "live_status"@.len() == 11 && "live_status"@[0] == 'l',
        "required_actor"@.len() == 14,
{
    reveal_strlit("id");
    reveal_strlit("ts");
    reveal_strlit("kind");
    reveal_strlit("name");
    reveal_strlit("note");
    reveal_strlit("open");
    reveal_strlit("state");
    reveal_strlit("action");
    reveal_strlit("reason");
    reveal_strlit("status");
    reveal_strlit("options");
    reveal_strlit("project");
    reveal_strlit("summary");
    reveal_strlit("claim_id");
    reveal_strlit("evidence");
    reveal_strlit("priority");
    reveal_strlit("question");
    reveal_strlit("commander");
    reveal_strlit("confidence");
    reveal_strlit("resolution");
    reveal_strlit("updated_at");
    reveal_strlit("claim_state");
    reveal_strlit("decision_id");
    reveal_strlit("live_status");
    reveal_strlit("required_actor");
}


/// Positions that go up.
pub open spec fn go_up(at: Seq<int>) -> bool {
    forall|i: int, j: int| 0 <= i < j < at.len() ==> #[trigger] at[i] < #[trigger] at[j]
}

/// A list is what was chosen of another: all that was wanted, nothing else, in
/// the order in which it stood.
pub open spec fn is_chosen(
    chosen: Seq<JsonV>,
    values: Seq<JsonV>,
    wanted: spec_fn(JsonV) -> bool,
    at: Seq<int>,
) -> bool {
    &&& at.len() == chosen.len()
    &&& go_up(at)
    &&& forall|k: int|
        0 <= k < at.len() ==> 0 <= #[trigger] at[k] < values.len() && chosen[k] == values[at[k]]
            && wanted(values[at[k]])
    &&& forall|n: int|
        0 <= n < values.len() && wanted(#[trigger] values[n]) ==> at.contains(n)
}

proof fn lemma_filter_chosen(values: Seq<JsonV>, wanted: spec_fn(JsonV) -> bool) -> (at: Seq<int>)
    ensures
        is_chosen(values.filter(wanted), values, wanted, at),
    decreases values.len(),
{
    reveal(Seq::filter);
    if values.len() == 0 {
        Seq::empty()
    } else {
        let rest = values.drop_last();
        let at = lemma_filter_chosen(rest, wanted);
        assert(values =~= rest.push(values.last()));
        lemma_chosen_more(rest.filter(wanted), rest, values.last(), wanted, at)
    }
}

/// One more value is chosen where it is wanted.
proof fn lemma_chosen_more(
    chosen: Seq<JsonV>,
    rest: Seq<JsonV>,
    last: JsonV,
    wanted: spec_fn(JsonV) -> bool,
    at: Seq<int>,
) -> (more: Seq<int>)
    requires
        is_chosen(chosen, rest, wanted, at),
    ensures
        is_chosen(
            if wanted(last) {
                chosen.push(last)
            } else {
                chosen
            },
            rest.push(last),
            wanted,
            more,
        ),
{
    let values = rest.push(last);
    let n = rest.len() as int;
    let more = if wanted(last) {
        at.push(n)
    } else {
        at
    };
    let all = if wanted(last) {
        chosen.push(last)
    } else {
        chosen
    };
    assert forall|k: int| 0 <= k < more.len() implies 0 <= #[trigger] more[k] < values.len()
        && all[k] == values[more[k]] && wanted(values[more[k]]) by {
        if k < at.len() {
            assert(more[k] == at[k]);
        }
    }
    assert forall|m: int| 0 <= m < values.len() && wanted(#[trigger] values[m]) implies more.contains(
        m,
    ) by {
        if m < n {
            assert(values[m] == rest[m]);
            assert(at.contains(m));
            let k = choose|k: int| 0 <= k < at.len() && at[k] == m;
            assert(more[k] == m);
        } else {
            assert(more[at.len() as int] == m);
        }
    }
    assert(go_up(more)) by {
        assert forall|i: int, j: int| 0 <= i < j < more.len() implies #[trigger] more[i]
            < #[trigger] more[j] by {
            assert(more[i] == at[i]);
            if j < at.len() {
                assert(more[j] == at[j]);
            }
        }
    }
    more
}

/// What is said of a decision: its identifier, its project, whether it is
/// answered, its question, its options where there are any, and the answer
/// where there is one.
pub open spec fn decision_said(line: Seq<char>, item: JsonV, options: Seq<Seq<char>>) -> bool {
    let head = item.string("id"@) + "  "@ + item.string("project"@) + "  "@ + (if item.get(
        "state"@,
    ) == Some(JsonV::Text("open"@)) {
        "待拍板"@
    } else {
        "已解决"@
    }) + "  "@ + item.string("question"@);
    let choices = text::joined(options, " / "@);
    let shown = if choices.len() == 0 {
        head
    } else {
        head + ("  选项: "@ + choices)
    };
    line == (match item.get("resolution"@) {
        Some(JsonV::Text(answer)) => shown + ("  结论: "@ + answer),
        _ => shown,
    })
}

proof fn lemma_texts_among(values: Seq<JsonV>, texts: Seq<Seq<char>>)
    requires
        values.len() == texts.len(),
        forall|k: int| 0 <= k < texts.len() ==> #[trigger] values[k] == JsonV::Text(texts[k]),
    ensures
        listing::texts_among(values) == texts,
    decreases values.len(),
{
    if values.len() > 0 {
        let rest = values.drop_last();
        let fewer = texts.drop_last();
        assert forall|k: int| 0 <= k < fewer.len() implies #[trigger] rest[k] == JsonV::Text(
            fewer[k],
        ) by {
            assert(rest[k] == values[k]);
        }
        lemma_texts_among(rest, fewer);
        assert(values[values.len() - 1] == JsonV::Text(texts[texts.len() - 1]));
        assert(texts =~= fewer.push(texts.last()));
    } else {
        assert(texts =~= Seq::<Seq<char>>::empty());
    }
}

/// A decision is shown with all that is known of it.
pub proof fn law_decision_is_shown(item: JsonV, options: Seq<Seq<char>>)
    requires
        project_laws::is_text_list(item.at("options"@), options) || (!(item.at("options"@)
            is Array) && options.len() == 0),
    ensures
        decision_said(listing::decision_line(item), item, options),
{
    lemma_words();
    if item.at("options"@) is Array {
        lemma_texts_among(item.at("options"@).items(), options);
    } else {
        lemma_texts_among(Seq::empty(), options);
    }
    let none = Seq::<char>::empty();
    let head = item.string("id"@) + "  "@ + item.string("project"@) + "  "@ + (if item.string(
        "state"@,
    ) == "open"@ {
        "待拍板"@
    } else {
        "已解决"@
    }) + "  "@ + item.string("question"@);
    assert(head + none =~= head);
    let choices = text::joined(options, " / "@);
    let shown = head + ("  选项: "@ + choices);
    assert(shown + none =~= shown);
    assert("open"@.len() > 0);
}

/// Without a wish for all, the open decisions are listed, each in its line and
/// in their order, and no other; where none is open, one line says so.
pub proof fn law_open_decisions_are_listed(decisions: Seq<JsonV>) -> (at: Seq<int>)
    ensures
        ({
            let lines = listing::decisions_lines(decisions, false);
            &&& go_up(at)
            &&& forall|k: int|
                0 <= k < at.len() ==> 0 <= #[trigger] at[k] < decisions.len()
                    && decisions[at[k]].get("state"@) == Some(JsonV::Text("open"@))
            &&& forall|n: int|
                0 <= n < decisions.len() && (#[trigger] decisions[n]).get("state"@) == Some(
                    JsonV::Text("open"@),
                ) ==> at.contains(n)
            &&& at.len() == 0 ==> lines == seq!["(没有待拍板事项)"@]
            &&& at.len() > 0 ==> lines.len() == at.len() && forall|k: int|
                0 <= k < at.len() ==> #[trigger] lines[k] == listing::decision_line(
                    decisions[at[k]],
                )
        }),
{
    lemma_words();
    let wanted = records::open_ones(None);
    let at = lemma_filter_chosen(decisions, wanted);
    assert("open"@.len() > 0);
    assert forall|n: int|
        0 <= n < decisions.len() && (#[trigger] decisions[n]).get("state"@) == Some(
            JsonV::Text("open"@),
        ) implies at.contains(n) by {
        assert(wanted(decisions[n]));
    }
    assert forall|k: int| 0 <= k < at.len() implies 0 <= #[trigger] at[k] < decisions.len()
        && decisions[at[k]].get("state"@) == Some(JsonV::Text("open"@)) by {
        assert(wanted(decisions[at[k]]));
    }
    at
}

/// Where all are wished for, every decision has its line, in their order; where
/// there is none, one line says so.
pub proof fn law_all_decisions_are_listed(decisions: Seq<JsonV>)
    ensures
        ({
            let lines = listing::decisions_lines(decisions, true);
            &&& decisions.len() == 0 ==> lines == seq!["(没有决策记录)"@]
            &&& decisions.len() > 0 ==> lines.len() == decisions.len() && forall|k: int|
                0 <= k < decisions.len() ==> #[trigger] lines[k] == listing::decision_line(
                    decisions[k],
                )
        }),
{
}

/// A claim is one of a project, where a project is named.
pub open spec fn is_wanted(project: Option<Seq<char>>) -> spec_fn(JsonV) -> bool {
    |claim: JsonV| project is None || claim.string("project"@) == project->0
}

proof fn lemma_claims_for(claims: Seq<JsonV>, project: Option<Seq<char>>) -> (at: Seq<int>)
    ensures
        is_chosen(listing::claims_for(claims, project), claims, is_wanted(project), at),
    decreases claims.len(),
{
    if claims.len() == 0 {
        Seq::empty()
    } else {
        let rest = claims.drop_last();
        let at = lemma_claims_for(rest, project);
        assert(claims =~= rest.push(claims.last()));
        lemma_chosen_more(
            listing::claims_for(rest, project),
            rest,
            claims.last(),
            is_wanted(project),
            at,
        )
    }
}

/// Where all are wished for, every claim is listed in its order, or every claim
/// of the project that is named.
pub proof fn law_all_claims_are_listed(claims: Seq<JsonV>, project: Option<Seq<char>>) -> (at: Seq<
    int,
>)
    ensures
        is_chosen(
            listing::listed_claims(claims, project, true),
            claims,
            is_wanted(project),
            at,
        ),
{
    lemma_claims_for(claims, project)
}

proof fn lemma_last_claims(claims: Seq<JsonV>, project: Seq<char>)
    ensures
        listing::last_claims(claims).dom().finite(),
        listing::last_claims(claims).contains_key(project) <==> exists|i: int| #[trigger]
            claim_laws::is_latest(claims, project, i),
        forall|i: int| #[trigger]
            claim_laws::is_latest(claims, project, i) ==> listing::last_claims(claims)[project]
                == claims[i],
    decreases claims.len(),
{
    if claims.len() > 0 {
        let rest = claims.drop_last();
        let last = claims.last();
        lemma_last_claims(rest, project);
        let n = claims.len() - 1;
        assert forall|i: int| 0 <= i < n implies #[trigger] rest[i] == claims[i] by {}
        if last.string("project"@) == project {
            assert(claim_laws::is_latest(claims, project, n));
            assert forall|i: int| #[trigger] claim_laws::is_latest(
                claims,
                project,
                i,
            ) implies listing::last_claims(claims)[project] == claims[i] by {
                if i < n {
                    assert(claims[n].string("project"@) != project);
                }
            }
        } else {
            assert forall|i: int| #[trigger] claim_laws::is_latest(claims, project, i) <==>
                claim_laws::is_latest(rest, project, i) by {
                if claim_laws::is_latest(rest, project, i) {
                    assert forall|k: int| i < k < claims.len() implies (
                    #[trigger] claims[k]).string("project"@) != project by {
                        if k < n {
                            assert(rest[k] == claims[k]);
                        }
                    }
                }
                if claim_laws::is_latest(claims, project, i) {
                    assert(i != n);
                    assert forall|k: int| i < k < rest.len() implies (#[trigger] rest[k]).string(
                        "project"@,
                    ) != project by {
                        assert(rest[k] == claims[k]);
                    }
                }
            }
            if exists|i: int| #[trigger] claim_laws::is_latest(rest, project, i) {
                let i = choose|i: int| #[trigger] claim_laws::is_latest(rest, project, i);
                assert(claim_laws::is_latest(claims, project, i));
            }
            if exists|i: int| #[trigger] claim_laws::is_latest(claims, project, i) {
                let i = choose|i: int| #[trigger] claim_laws::is_latest(claims, project, i);
                assert(claim_laws::is_latest(rest, project, i));
            }
        }
    } else {
        assert forall|i: int| !#[trigger] claim_laws::is_latest(claims, project, i) by {}
    }
}

/// Without a wish for all, the last claim of every project is listed, once,
/// sorted by project: of every project that has claims, or of the one that is
/// named.
pub proof fn law_latest_claims_are_listed(
    claims: Seq<JsonV>,
    project: Option<Seq<char>>,
    i: int,
)
    ensures
        ({
            let listed = listing::listed_claims(claims, project, false);
            &&& forall|k: int, n: int|
                0 <= k < n < listed.len() ==> text::before(
                    #[trigger] listed[k].string("project"@),
                    #[trigger] listed[n].string("project"@),
                )
            &&& 0 <= i < claims.len() && claim_laws::is_latest(
                claims,
                claims[i].string("project"@),
                i,
            ) && (project is None || claims[i].string("project"@) == project->0)
                ==> listed.contains(claims[i])
            &&& forall|k: int|
                0 <= k < listed.len() ==> {
                    &&& project is None || (#[trigger] listed[k]).string("project"@)
                        == project->0
                    &&& exists|n: int| #[trigger]
                        claim_laws::is_latest(claims, listed[k].string("project"@), n)
                            && claims[n] == listed[k]
                }
        }),
{
    let chosen = listing::claims_for(claims, project);
    let at = lemma_claims_for(claims, project);
    let latest = listing::last_claims(chosen);
    lemma_last_claims(chosen, Seq::empty());
    json::lemma_name_order(latest);
    let order = json::name_order(latest);
    let listed = listing::listed_claims(claims, project, false);
    assert(listed.len() == order.len());
    assert forall|k: int| 0 <= k < listed.len() implies {
        &&& #[trigger] listed[k] == latest[order[k]]
        &&& listed[k].string("project"@) == order[k]
        &&& project is None || listed[k].string("project"@) == project->0
        &&& exists|n: int| #[trigger]
            claim_laws::is_latest(claims, listed[k].string("project"@), n) && claims[n]
                == listed[k]
    } by {
        let name = order[k];
        assert(order.contains(name));
        assert(latest.contains_key(name));
        lemma_last_claims(chosen, name);
        let m = choose|m: int| #[trigger] claim_laws::is_latest(chosen, name, m);
        assert(chosen[m] == claims[at[m]]);
        assert(is_wanted(project)(claims[at[m]]));
        assert forall|n: int| at[m] < n < claims.len() implies (#[trigger] claims[n]).string(
            "project"@,
        ) != name by {
            if claims[n].string("project"@) == name {
                assert(is_wanted(project)(claims[n]));
                assert(at.contains(n));
                let j = choose|j: int| 0 <= j < at.len() && at[j] == n;
                if j <= m {
                    if j < m {
                        assert(at[j] < at[m]);
                    }
                    assert(false);
                }
                assert(chosen[j] == claims[at[j]]);
                assert(false);
            }
        }
        assert(claim_laws::is_latest(claims, name, at[m]));
        assert(latest[name] == chosen[m]);
        assert(listed[k] == latest[name]);
        assert(listed[k].string("project"@) == name);
        assert(claim_laws::is_latest(claims, listed[k].string("project"@), at[m]));
    }
    assert forall|k: int, n: int| 0 <= k < n < listed.len() implies text::before(
        #[trigger] listed[k].string("project"@),
        #[trigger] listed[n].string("project"@),
    ) by {
        assert(listed[k].string("project"@) == order[k]);
        assert(listed[n].string("project"@) == order[n]);
    }
    if 0 <= i < claims.len() && claim_laws::is_latest(
        claims,
        claims[i].string("project"@),
        i,
    ) && (project is None || claims[i].string("project"@) == project->0) {
        let name = claims[i].string("project"@);
        assert(is_wanted(project)(claims[i]));
        assert(at.contains(i));
        let m = choose|m: int| 0 <= m < at.len() && at[m] == i;
        assert(chosen[m] == claims[i]);
        assert forall|n: int| m < n < chosen.len() implies (#[trigger] chosen[n]).string(
            "project"@,
        ) != name by {
            assert(at[m] < at[n]);
            assert(chosen[n] == claims[at[n]]);
        }
        assert(claim_laws::is_latest(chosen, name, m));
        lemma_last_claims(chosen, name);
        assert(latest.contains_key(name));
        assert(order.contains(name));
        let k = choose|k: int| 0 <= k < order.len() && order[k] == name;
        assert(listed[k] == latest[name]);
        assert(listed[k] == claims[i]);
    }
}

/// The claims that are listed are printed each in its line, or as one document;
/// where there are none, one line says so.
pub proof fn law_claims_are_printed(
    claims: Seq<JsonV>,
    project: Option<Seq<char>>,
    all: bool,
    k: int,
)
    ensures
        ({
            let listed = listing::listed_claims(claims, project, all);
            let lines = listing::claims_lines(claims, project, all, false);
            &&& listing::claims_lines(claims, project, all, true) == seq![
                outside::pretty_json(JsonV::Array(listed)),
            ]
            &&& listed.len() == 0 ==> lines == seq!["(没有状态声明)"@]
            &&& listed.len() > 0 ==> lines.len() == listed.len()
            &&& 0 <= k < listed.len() ==> lines[k] == listing::claim_line(listed[k])
        }),
{
}

/// A claim is shown with its identifier, project, status, state and summary,
/// its confidence where it has one, and how much evidence it has.
pub proof fn law_claim_is_shown(claim: JsonV, confidence: Seq<char>)
    ensures
        ({
            let head = claim.string("id"@) + "  "@ + claim.string("project"@) + "  "@
                + claim.string("status"@) + "  "@ + claim.string("state"@) + "  "@
                + claim.string("summary"@);
            let tail = "  evidence="@ + text::digits(
                (match claim.get("evidence"@) {
                    Some(JsonV::Array(items)) => items.len(),
                    _ => 0nat,
                }),
            );
            &&& claim.get("confidence"@) is Some && outside::two_places(claim.at("confidence"@))
                == Some(confidence) ==> listing::claim_line(claim) == head + (
            "  confidence="@ + confidence) + tail
            &&& claim.get("confidence"@) is None || outside::two_places(
                claim.at("confidence"@),
            ) is None ==> listing::claim_line(claim) == head + tail
        }),
{
    let head = claim.string("id"@) + "  "@ + claim.string("project"@) + "  "@ + claim.string(
        "status"@,
    ) + "  "@ + claim.string("state"@) + "  "@ + claim.string("summary"@);
    let count = text::digits(claim.at("evidence"@).items().len());
    assert(head + Seq::<char>::empty() =~= head);
    assert(head + "  evidence="@ + count =~= head + ("  evidence="@ + count));
    let shown = head + ("  confidence="@ + confidence);
    assert(shown + "  evidence="@ + count =~= shown + ("  evidence="@ + count));
}

/// The attention queue is printed entry by entry in its order, numbered from
/// one, each with its priority, project, kind, reason and actor and below it
/// what to do; or as one document; or one line says that nobody is needed.
pub proof fn law_queue_is_printed(items: Seq<JsonV>, k: int)
    ensures
        ({
            let lines = listing::attention_lines(items, false);
            &&& listing::attention_lines(items, true) == seq![
                outside::pretty_json(JsonV::Array(items)),
            ]
            &&& items.len() == 0 ==> lines == seq!["(当前无需人工介入)"@]
            &&& items.len() > 0 ==> lines.len() == 2 * items.len()
            &&& 0 <= k < items.len() ==> {
                &&& lines[2 * k] == text::padded_left(text::digits((k + 1) as nat), 2) + ". P"@
                    + outside::compact_json(items[k].at("priority"@)) + "  "@ + items[k].string(
                    "project"@,
                ) + "  "@ + items[k].string("kind"@) + "  "@ + items[k].string("reason"@)
                    + "  → "@ + items[k].string("required_actor"@)
                &&& lines[2 * k + 1] == "    "@ + items[k].string("action"@)
            }
        }),
{
    lemma_queue_lines(items, k);
}

proof fn lemma_queue_lines(items: Seq<JsonV>, k: int)
    ensures
        listing::queue_lines(items).len() == 2 * items.len(),
        0 <= k < items.len() ==> listing::queue_lines(items)[2 * k] == listing::attention_line(
            (k + 1) as nat,
            items[k],
        ) && listing::queue_lines(items)[2 * k + 1] == "    "@ + items[k].string("action"@),
    decreases items.len(),
{
    if items.len() > 0 {
        let rest = items.drop_last();
        lemma_queue_lines(rest, k);
        if 0 <= k < rest.len() {
            assert(rest[k] == items[k]);
        }
    }
}

/// The inbox shows what is behind the cursor, or all of it where all is wished
/// for, each entry in its line and in their order; where there is nothing to
/// show, one line says so.
pub proof fn law_inbox_shows_what_is_new(entries: Seq<JsonV>, cursor: nat, k: int)
    ensures
        ({
            let fresh = listing::inbox_lines(entries, false, cursor);
            let whole = listing::inbox_lines(entries, true, cursor);
            &&& cursor >= entries.len() ==> fresh == seq!["(没有新消息)"@]
            &&& cursor < entries.len() ==> fresh.len() == entries.len() - cursor
            &&& cursor <= k < entries.len() ==> fresh[k - cursor] == listing::inbox_line(
                entries[k],
            )
            &&& entries.len() == 0 ==> whole == seq!["(收件箱为空)"@]
            &&& entries.len() > 0 ==> whole.len() == entries.len()
            &&& 0 <= k < entries.len() ==> whole[k] == listing::inbox_line(entries[k])
        }),
{
}

/// An entry of the inbox is shown with its time, project, status and summary,
/// and the decision or claim that it is about.
pub proof fn law_inbox_entry_is_shown(entry: JsonV)
    ensures
        ({
            let head = "["@ + entry.string("ts"@) + "] "@ + entry.string("project"@) + " · "@
                + entry.string("status"@) + " · "@ + entry.string("summary"@);
            let decision = match entry.get("decision_id"@) {
                Some(JsonV::Text(id)) => " · 决策 "@ + id,
                _ => Seq::empty(),
            };
            let claim = match entry.get("claim_id"@) {
                Some(JsonV::Text(id)) => " · claim "@ + id,
                _ => Seq::empty(),
            };
            listing::inbox_line(entry) == head + decision + claim
        }),
{
    let head = "["@ + entry.string("ts"@) + "] "@ + entry.string("project"@) + " · "@
        + entry.string("status"@) + " · "@ + entry.string("summary"@);
    let decision = match entry.get("decision_id"@) {
        Some(JsonV::Text(id)) => " · 决策 "@ + id,
        _ => Seq::empty(),
    };
    let claim = match entry.get("claim_id"@) {
        Some(JsonV::Text(id)) => " · claim "@ + id,
        _ => Seq::empty(),
    };
    assert(head + (decision + claim) =~= head + decision + claim);
}

/// How a project is live, as a listing says it: by the runtime where it is
/// connected, and why not where it is not.
pub open spec fn live_said(
    runtime: JsonV,
    project: Seq<char>,
    plugin: bool,
    watching: bool,
) -> Seq<char> {
    if runtime.get("connected"@) == Some(JsonV::Bool(true)) {
        match runtime.at("projects"@).get(project) {
            Some(live) => live.string("live_status"@),
            None => "offline"@,
        }
    } else if plugin {
        "未对账"@
    } else if watching {
        "连接中断"@
    } else {
        "未监听"@
    }
}

/// The first open question of a project is the one that its line asks.
proof fn lemma_first_question(decisions: Seq<JsonV>, project: Seq<char>, i: int)
    ensures
        project_laws::is_next(decisions, project, i) ==> listing::first_question(
            decisions,
            project,
        ) == Some(decisions[i].string("question"@)),
        !claim_laws::is_awaited(decisions, project) ==> listing::first_question(
            decisions,
            project,
        ) is None,
{
    let wanted = records::open_ones(Some(project));
    let at = lemma_filter_chosen(decisions, wanted);
    let open = decisions.filter(wanted);
    if project_laws::is_next(decisions, project, i) {
        assert(wanted(decisions[i]));
        assert(at.contains(i));
        let k = choose|k: int| 0 <= k < at.len() && at[k] == i;
        if k > 0 {
            assert(at[0] < at[k]);
            assert(wanted(decisions[at[0]]));
            assert(decisions[at[0]].string("state"@) == "open"@);
            assert(false);
        }
        assert(open[0] == decisions[i]);
    }
    if !claim_laws::is_awaited(decisions, project) && open.len() > 0 {
        assert(wanted(decisions[at[0]]));
        assert(decisions[at[0]].string("state"@) == "open"@);
        assert(claim_laws::is_awaited(decisions, project));
    }
}

/// A project is shown with its commander, its effective status, how it is
/// live, when it was updated and its note, the question that waits for an
/// answer, and the state of its claim.
pub proof fn law_project_is_shown(
    project: Seq<char>,
    entry: JsonV,
    decisions: Seq<JsonV>,
    live: Seq<char>,
    i: int,
)
    ensures
        ({
            let head = text::padded(project, 16) + " 机长="@ + text::padded(
                entry.string("commander"@),
                14,
            ) + " 项目="@ + text::padded(
                records::effective(entry, decisions, project),
                14,
            ) + " 实时="@ + text::padded(live, 10) + " 更新="@ + entry.string("updated_at"@)
                + "  "@ + entry.string("note"@);
            let claim = match entry.get("claim_state"@) {
                Some(JsonV::Text(state)) => "  claim="@ + state,
                _ => Seq::empty(),
            };
            let line = listing::project_line(project, entry, decisions, live);
            &&& project_laws::is_next(decisions, project, i) ==> line == head + (
            "  待拍板="@ + decisions[i].string("question"@)) + claim
            &&& !claim_laws::is_awaited(decisions, project) ==> line == head + claim
        }),
{
    lemma_first_question(decisions, project, i);
    let head = text::padded(project, 16) + " 机长="@ + text::padded(
        entry.string("commander"@),
        14,
    ) + " 项目="@ + text::padded(records::effective(entry, decisions, project), 14)
        + " 实时="@ + text::padded(live, 10) + " 更新="@ + entry.string("updated_at"@) + "  "@
        + entry.string("note"@);
    assert(head + Seq::<char>::empty() =~= head);
}

/// An agent counts as a stray commander: its name ends as that of a commander
/// does, and no registered project has it as its commander.
pub open spec fn is_stray(agent: JsonV, registry: Members) -> bool {
    match agent.get("name"@) {
        Some(JsonV::Text(name)) => text::has_suffix(name, "-cmd"@) && forall|project: Seq<char>|
            #[trigger] registry.contains_key(project) ==> registry[project].string("commander"@)
                != name,
        _ => false,
    }
}

proof fn lemma_ghosts(agents: Seq<JsonV>, registry: Members)
    requires
        registry.dom().finite(),
    ensures
        ({
            let ghosts = listing::ghosts_among(agents, listing::commanders_of(registry));
            exists|at: Seq<int>| #[trigger] are_strays(ghosts, agents, registry, at)
        }),
    decreases agents.len(),
{
    let commanders = listing::commanders_of(registry);
    let ghosts = listing::ghosts_among(agents, commanders);
    if agents.len() == 0 {
        assert(are_strays(ghosts, agents, registry, Seq::empty()));
    } else {
        let rest = agents.drop_last();
        let last = agents.last();
        lemma_ghosts(rest, registry);
        let fewer = listing::ghosts_among(rest, commanders);
        let before = choose|at: Seq<int>| #[trigger] are_strays(fewer, rest, registry, at);
        lemma_stray(last, registry);
        let n = rest.len() as int;
        let now = if is_stray(last, registry) {
            before.push(n)
        } else {
            before
        };
        assert forall|k: int| 0 <= k < now.len() implies 0 <= #[trigger] now[k] < agents.len()
            && is_stray(agents[now[k]], registry) && ghosts[k] == agents[now[k]].string(
            "name"@,
        ) by {
            if k < before.len() {
                assert(now[k] == before[k]);
                assert(agents[now[k]] == rest[before[k]]);
            }
        }
        assert forall|m: int| 0 <= m < agents.len() && is_stray(
            #[trigger] agents[m],
            registry,
        ) implies now.contains(m) by {
            if m < n {
                assert(rest[m] == agents[m]);
                assert(before.contains(m));
                let k = choose|k: int| 0 <= k < before.len() && before[k] == m;
                assert(now[k] == m);
            } else {
                assert(now[before.len() as int] == m);
            }
        }
        assert(go_up(now)) by {
            assert forall|i: int, j: int| 0 <= i < j < now.len() implies #[trigger] now[i]
                < #[trigger] now[j] by {
                assert(now[i] == before[i]);
                if j < before.len() {
                    assert(now[j] == before[j]);
                }
            }
        }
        assert(are_strays(ghosts, agents, registry, now));
    }
}

/// Names are those of the stray commanders among agents, all of them and in
/// their order.
pub open spec fn are_strays(
    names: Seq<Seq<char>>,
    agents: Seq<JsonV>,
    registry: Members,
    at: Seq<int>,
) -> bool {
    &&& at.len() == names.len()
    &&& go_up(at)
    &&& forall|k: int|
        0 <= k < at.len() ==> 0 <= #[trigger] at[k] < agents.len() && is_stray(
            agents[at[k]],
            registry,
        ) && names[k] == agents[at[k]].string("name"@)
    &&& forall|m: int|
        0 <= m < agents.len() && is_stray(#[trigger] agents[m], registry) ==> at.contains(m)
}

proof fn lemma_stray(agent: JsonV, registry: Members)
    requires
        registry.dom().finite(),
    ensures
        is_stray(agent, registry) <==> agent.optional_string("name"@) is Some
            && text::has_suffix(agent.string("name"@), "-cmd"@) && !listing::commanders_of(
            registry,
        ).contains(agent.string("name"@)),
{
    json::lemma_name_order(registry);
    let order = json::name_order(registry);
    let commanders = listing::commanders_of(registry);
    if agent.optional_string("name"@) is Some {
        let name = agent.string("name"@);
        if commanders.contains(name) {
            let k = choose|k: int| 0 <= k < commanders.len() && commanders[k] == name;
            assert(order.contains(order[k]));
            assert(registry.contains_key(order[k]));
            assert(registry[order[k]].string("commander"@) == name);
        } else {
            assert forall|project: Seq<char>| #[trigger] registry.contains_key(
                project,
            ) implies registry[project].string("commander"@) != name by {
                assert(order.contains(project));
                let k = choose|k: int| 0 <= k < order.len() && order[k] == project;
                assert(commanders[k] == registry[project].string("commander"@));
            }
        }
    }
}

/// A list in four parts holds each of them in its place.
proof fn lemma_four_parts(
    first: Seq<Seq<char>>,
    second: Seq<Seq<char>>,
    third: Seq<Seq<char>>,
    fourth: Seq<Seq<char>>,
)
    ensures
        ({
            let all = first + second + third + fourth;
            let (a, b) = (first.len() as int, (first.len() + second.len()) as int);
            let c = (first.len() + second.len() + third.len()) as int;
            &&& all.len() == c + fourth.len()
            &&& forall|k: int| 0 <= k < a ==> #[trigger] all[k] == first[k]
            &&& second.len() > 0 ==> all[a] == second[0]
            &&& third.len() > 0 ==> all[b] == third[0]
            &&& fourth.len() > 0 ==> all[c] == fourth[0]
        }),
{
}


/// The list shows every registered project in one line, sorted by name, then
/// the stray commanders, then how much needs attention and what most, and last
/// that nobody watches where that is so.
pub proof fn law_projects_are_listed(
    registry: Members,
    decisions: Seq<JsonV>,
    runtime: JsonV,
    plugin: bool,
    watching: bool,
    queue: Seq<JsonV>,
) -> (found: (Seq<Seq<char>>, Seq<Seq<char>>))
    requires
        registry.dom().finite(),
    ensures
        ({
            let lines = listing::list_lines(
                registry,
                decisions,
                runtime,
                plugin,
                watching,
                queue,
            );
            let (order, strays) = found;
            let n = order.len() as int;
            let s: int = if strays.len() > 0 {
                1
            } else {
                0
            };
            let q: int = if queue.len() > 0 {
                1
            } else {
                0
            };
            let w: int = if plugin || watching {
                0
            } else {
                1
            };
            &&& forall|project: Seq<char>| #[trigger]
                order.contains(project) <==> registry.contains_key(project)
            &&& forall|i: int, j: int|
                0 <= i < j < n ==> text::before(#[trigger] order[i], #[trigger] order[j])
            &&& exists|at: Seq<int>| #[trigger]
                are_strays(strays, runtime.at("agents"@).items(), registry, at)
            &&& lines.len() == n + s + q + w
            &&& forall|k: int|
                0 <= k < n ==> #[trigger] lines[k] == listing::project_line(
                    order[k],
                    registry[order[k]],
                    decisions,
                    live_said(runtime, order[k], plugin, watching),
                )
            &&& strays.len() > 0 ==> lines[n] == "⚠ 存活但未注册的机长: "@ + text::joined(
                strays,
                ", "@,
            )
            &&& queue.len() > 0 ==> lines[n + s] == "⚠ attention="@ + text::digits(queue.len())
                + "  top="@ + queue[0].string("project"@) + "/"@ + queue[0].string("kind"@)
                + ": "@ + queue[0].string("reason"@)
            &&& !plugin && !watching ==> lines[n + s + q]
                == "⚠ 事件监听器未运行；执行 ./fleet watch-start，或安装为 Herdr plugin"@
        }),
{
    let order = json::name_order(registry);
    json::lemma_name_order(registry);
    let strays = listing::ghosts_among(
        runtime::agents_of(runtime),
        listing::commanders_of(registry),
    );
    lemma_ghosts(runtime::agents_of(runtime), registry);
    reveal_strlit("connected");
    let lines = listing::list_lines(registry, decisions, runtime, plugin, watching, queue);
    let at = choose|at: Seq<int>| #[trigger]
        are_strays(strays, runtime::agents_of(runtime), registry, at);
    assert(are_strays(strays, runtime.at("agents"@).items(), registry, at));
    let first = listing::project_lines(
        order,
        registry,
        decisions,
        runtime,
        plugin,
        watching,
    );
    let second: Seq<Seq<char>> = if strays.len() == 0 {
        Seq::empty()
    } else {
        seq!["⚠ 存活但未注册的机长: "@ + text::joined(strays, ", "@)]
    };
    let third = listing::queue_summary(queue);
    let fourth: Seq<Seq<char>> = if plugin || watching {
        Seq::empty()
    } else {
        seq!["⚠ 事件监听器未运行；执行 ./fleet watch-start，或安装为 Herdr plugin"@]
    };
    assert(lines == first + second + third + fourth);
    lemma_four_parts(first, second, third, fourth);
    assert(first.len() == order.len());
    assert forall|k: int| 0 <= k < order.len() implies #[trigger] lines[k]
        == listing::project_line(
        order[k],
        registry[order[k]],
        decisions,
        live_said(runtime, order[k], plugin, watching),
    ) by {
        assert(lines[k] == first[k]);
    }
    assert forall|i: int, j: int| 0 <= i < j < order.len() implies text::before(
        #[trigger] order[i],
        #[trigger] order[j],
    ) by {}
    assert(forall|project: Seq<char>| #[trigger]
        order.contains(project) <==> registry.contains_key(project));
    if strays.len() > 0 {
        assert(second.len() == 1);
        assert(lines[first.len() as int] == second[0]);
    }
    if queue.len() > 0 {
        assert(third.len() == 1);
        assert(lines[(first.len() + second.len()) as int] == third[0]);
        assert(third[0] == "⚠ attention="@ + text::digits(queue.len()) + "  top="@
            + queue[0].string("project"@) + "/"@ + queue[0].string("kind"@) + ": "@
            + queue[0].string("reason"@));
    }
    if !plugin && !watching {
        assert(fourth.len() == 1);
        assert(lines[(first.len() + second.len() + third.len()) as int] == fourth[0]);
    }
    let n = order.len() as int;
    let s: int = if strays.len() > 0 {
        1
    } else {
        0
    };
    let q: int = if queue.len() > 0 {
        1
    } else {
        0
    };
    assert(second.len() == s && third.len() == q);
    assert(lines.len() == n + s + q + fourth.len());
    assert(strays.len() > 0 ==> lines[n] == second[0]);
    assert(queue.len() > 0 ==> lines[n + s] == third[0]);
    assert(!plugin && !watching ==> lines[n + s + q] == fourth[0]);
    (order, strays)
}

} // verus!
