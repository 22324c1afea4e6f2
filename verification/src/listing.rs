//! The lines that the commands print.
use vstd::prelude::*;
use crate::attention;
use crate::json::{clone_items, optional_string, string, string_is, Json, JsonV, Members, Object};
use crate::json;
use crate::outside::{compact, pretty, rounded};
use crate::outside;
use crate::records::{effective_status, open_decisions};
use crate::records;
use crate::runtime;
use crate::state::sorted_registry;
use crate::text;
use crate::text::{cat2, cat3, cat4, cat5, cat6, cat7, decimal, ends_with, join, listed, pad, pad_left};

verus! {

/// Lines of text.
pub type Lines = Seq<Seq<char>>;

fn push_line(lines: &mut Vec<String>, line: String)
    ensures
        text::texts(final(lines)@) == text::texts(old(lines)@).push(line@),
{
    let ghost before = lines@;
    lines.push(line);
    proof {
        assert(text::texts(lines@) =~= text::texts(before).push(line@));
    }
}

/// The only line.
pub fn one_line(line: String) -> (r: Vec<String>)
    ensures
        text::texts(r@) == seq![line@],
{
    let mut out: Vec<String> = Vec::new();
    out.push(line);
    proof {
        assert(text::texts(out@) =~= seq![line@]);
    }
    out
}

/// A label before a text, and nothing where there is no text.
pub open spec fn labelled(label: Seq<char>, value: Option<Seq<char>>) -> Seq<char> {
    match value {
        Some(text) => label + text,
        None => Seq::empty(),
    }
}

fn label(name: &str, value: Option<String>) -> (r: String)
    ensures
        r@ == labelled(name@, text::opt_string(value)),
{
    match value {
        Some(text) => cat2(name, text.as_str()),
        None => String::new(),
    }
}

/// The claims of a project, or all of them.
pub open spec fn claims_for(claims: Seq<JsonV>, project: Option<Seq<char>>) -> Seq<JsonV>
    decreases claims.len(),
{
    if claims.len() == 0 {
        Seq::empty()
    } else {
        let rest = claims_for(claims.drop_last(), project);
        let last = claims.last();
        if project is None || last.string("project"@) == project->0 {
            rest.push(last)
        } else {
            rest
        }
    }
}

/// The last claim of every project.
pub open spec fn last_claims(claims: Seq<JsonV>) -> Members
    decreases claims.len(),
{
    if claims.len() == 0 {
        Map::empty()
    } else {
        last_claims(claims.drop_last()).insert(claims.last().string("project"@), claims.last())
    }
}

/// The values of members in the order of their names.
pub open spec fn in_name_order(members: Members) -> Seq<JsonV> {
    json::name_order(members).map_values(|name: Seq<char>| members[name])
}

/// The claims that are listed: those of one project or of all, and of every
/// project the last or all of them.
pub open spec fn listed_claims(
    claims: Seq<JsonV>,
    project: Option<Seq<char>>,
    all: bool,
) -> Seq<JsonV> {
    let wanted = claims_for(claims, project);
    if all {
        wanted
    } else {
        in_name_order(last_claims(wanted))
    }
}

fn select_claims(claims: &Vec<Json>, project: &Option<String>) -> (r: Vec<Json>)
    ensures
        json::views(r@) == claims_for(json::views(claims@), text::opt_string(*project)),
{
    let ghost all = json::views(claims@);
    let mut out: Vec<Json> = Vec::new();
    let mut i: usize = 0;
    proof {
        assert(json::views(out@) =~= claims_for(all.take(0), text::opt_string(*project)));
    }
    while i < claims.len()
        invariant
            i <= claims.len(),
            all == json::views(claims@),
            json::views(out@) == claims_for(all.take(i as int), text::opt_string(*project)),
        decreases claims.len() - i,
    {
        proof {
            assert(all.take(i + 1).drop_last() =~= all.take(i as int));
            assert(all.take(i + 1).last() == claims@[i as int]@);
        }
        let wanted = match project {
            Some(name) => string_is(&claims[i], "project", name.as_str()),
            None => true,
        };
        if wanted {
            let claim = claims[i].clone();
            proof {
                json::lemma_views_push(out@, claim);
            }
            out.push(claim);
        }
        i = i + 1;
    }
    proof {
        assert(all.take(i as int) =~= all);
    }
    out
}

/// The values of an object in the order of their names.
pub fn ordered_values(object: &Object) -> (r: Vec<Json>)
    ensures
        json::views(r@) == in_name_order(object@),
{
    let names = object.names();
    let ghost order = json::name_order(object@);
    let ghost goal = in_name_order(object@);
    let mut out: Vec<Json> = Vec::new();
    let mut n: usize = 0;
    proof {
        assert(json::views(out@) =~= goal.take(0));
        assert(text::texts(names@).len() == names@.len());
    }
    while n < names.len()
        invariant
            n <= names.len(),
            names.len() == order.len(),
            text::texts(names@) == order,
            json::is_name_order(order, object@),
            goal == in_name_order(object@),
            order == json::name_order(object@),
            json::views(out@) == goal.take(n as int),
        decreases names.len() - n,
    {
        proof {
            assert(order[n as int] == names@[n as int]@);
            assert(order.contains(names@[n as int]@));
        }
        match object.get(names[n].as_str()) {
            Some(value) => {
                let copy = value.clone();
                proof {
                    json::lemma_views_push(out@, copy);
                    assert(goal.take(n as int).push(copy@) =~= goal.take(n + 1));
                }
                out.push(copy);
            },
            None => {},
        }
        n = n + 1;
    }
    proof {
        assert(goal.take(n as int) =~= goal);
    }
    out
}

/// The claims that are listed.
pub fn choose_claims(claims: &Vec<Json>, project: &Option<String>, all: bool) -> (r: Vec<Json>)
    ensures
        json::views(r@) == listed_claims(json::views(claims@), text::opt_string(*project), all),
{
    let wanted = select_claims(claims, project);
    if all {
        return wanted;
    }
    let ghost values = json::views(wanted@);
    let mut latest = Object::new();
    let mut i: usize = 0;
    proof {
        assert(values.take(0) =~= Seq::empty());
    }
    while i < wanted.len()
        invariant
            i <= wanted.len(),
            values == json::views(wanted@),
            latest@ == last_claims(values.take(i as int)),
        decreases wanted.len() - i,
    {
        proof {
            assert(values.take(i + 1).drop_last() =~= values.take(i as int));
            assert(values.take(i + 1).last() == wanted@[i as int]@);
        }
        latest.put(string(&wanted[i], "project").as_str(), wanted[i].clone());
        i = i + 1;
    }
    proof {
        assert(values.take(i as int) =~= values);
    }
    ordered_values(&latest)
}

/// The confidence of a claim, with two decimal places.
pub open spec fn confidence_text(claim: JsonV) -> Option<Seq<char>> {
    match claim.get("confidence"@) {
        Some(value) => outside::two_places(value),
        None => None,
    }
}

/// The line of a claim.
pub open spec fn claim_line(claim: JsonV) -> Seq<char> {
    claim.string("id"@) + "  "@ + claim.string("project"@) + "  "@ + claim.string("status"@)
        + "  "@ + claim.string("state"@) + "  "@ + claim.string("summary"@) + labelled(
        "  confidence="@,
        confidence_text(claim),
    ) + "  evidence="@ + text::digits(claim.at("evidence"@).items().len())
}

fn line_of_claim(claim: &Json) -> (r: String)
    ensures
        r@ == claim_line(claim@),
{
    let confidence: Option<String> = match claim.get("confidence") {
        Some(value) => rounded(value),
        None => None,
    };
    let evidence = claim.at("evidence").into_items();
    proof {
        assert(json::views(evidence@).len() == evidence@.len());
    }
    let head = cat7(
        string(claim, "id").as_str(),
        "  ",
        string(claim, "project").as_str(),
        "  ",
        string(claim, "status").as_str(),
        "  ",
        string(claim, "state").as_str(),
    );
    let middle = cat4(
        head.as_str(),
        "  ",
        string(claim, "summary").as_str(),
        label("  confidence=", confidence).as_str(),
    );
    cat3(middle.as_str(), "  evidence=", decimal(evidence.len() as u64).as_str())
}

/// What `claims` prints.
pub open spec fn claims_lines(
    claims: Seq<JsonV>,
    project: Option<Seq<char>>,
    all: bool,
    as_json: bool,
) -> Lines {
    let values = listed_claims(claims, project, all);
    if as_json {
        seq![outside::pretty_json(JsonV::Array(values))]
    } else if values.len() == 0 {
        seq!["(没有状态声明)"@]
    } else {
        values.map_values(|claim: JsonV| claim_line(claim))
    }
}

/// What `claims` prints.
pub fn list_claims(claims: &Vec<Json>, project: &Option<String>, all: bool, as_json: bool) -> (r: Vec<
    String,
>)
    ensures
        text::texts(r@) == claims_lines(
            json::views(claims@),
            text::opt_string(*project),
            all,
            as_json,
        ),
{
    let values = choose_claims(claims, project, all);
    let ghost model = json::views(values@);
    if as_json {
        return one_line(pretty(&Json::Array(values)));
    }
    if values.len() == 0 {
        return one_line("(没有状态声明)".to_owned());
    }
    let ghost goal = model.map_values(|claim: JsonV| claim_line(claim));
    let mut lines: Vec<String> = Vec::new();
    let mut i: usize = 0;
    proof {
        assert(text::texts(lines@) =~= goal.take(0));
    }
    while i < values.len()
        invariant
            i <= values.len(),
            model == json::views(values@),
            goal == model.map_values(|claim: JsonV| claim_line(claim)),
            text::texts(lines@) == goal.take(i as int),
        decreases values.len() - i,
    {
        push_line(&mut lines, line_of_claim(&values[i]));
        proof {
            assert(model[i as int] == values@[i as int]@);
            assert(goal.take(i as int).push(goal[i as int]) =~= goal.take(i + 1));
        }
        i = i + 1;
    }
    proof {
        assert(goal.take(i as int) =~= goal);
    }
    lines
}

/// The texts among values.
pub open spec fn texts_among(values: Seq<JsonV>) -> Lines
    decreases values.len(),
{
    if values.len() == 0 {
        Seq::empty()
    } else {
        let rest = texts_among(values.drop_last());
        match values.last().as_text() {
            Some(text) => rest.push(text),
            None => rest,
        }
    }
}

/// The texts among values.
pub fn pick_texts(values: &Vec<Json>) -> (r: Vec<String>)
    ensures
        text::texts(r@) == texts_among(json::views(values@)),
{
    let ghost all = json::views(values@);
    let mut out: Vec<String> = Vec::new();
    let mut i: usize = 0;
    proof {
        assert(text::texts(out@) =~= texts_among(all.take(0)));
    }
    while i < values.len()
        invariant
            i <= values.len(),
            all == json::views(values@),
            text::texts(out@) == texts_among(all.take(i as int)),
        decreases values.len() - i,
    {
        proof {
            assert(all.take(i + 1).drop_last() =~= all.take(i as int));
            assert(all.take(i + 1).last() == values@[i as int]@);
        }
        match values[i].as_str() {
            Some(text) => {
                push_line(&mut out, text.to_owned());
            },
            None => {},
        }
        i = i + 1;
    }
    proof {
        assert(all.take(i as int) =~= all);
    }
    out
}

/// The line of a decision.
pub open spec fn decision_line(item: JsonV) -> Seq<char> {
    let state = if item.string("state"@) == "open"@ {
        "待拍板"@
    } else {
        "已解决"@
    };
    let options = text::joined(texts_among(item.at("options"@).items()), " / "@);
    item.string("id"@) + "  "@ + item.string("project"@) + "  "@ + state + "  "@ + item.string(
        "question"@,
    ) + labelled("  选项: "@, if options.len() == 0 { None } else { Some(options) }) + labelled(
        "  结论: "@,
        item.optional_string("resolution"@),
    )
}

fn line_of_decision(item: &Json) -> (r: String)
    ensures
        r@ == decision_line(item@),
{
    let state: &str = if string_is(item, "state", "open") {
        "待拍板"
    } else {
        "已解决"
    };
    let options = join(pick_texts(&item.at("options").into_items()).as_slice(), " / ");
    let shown: Option<String> = if options.as_str().is_empty() {
        None
    } else {
        Some(options)
    };
    let head = cat7(
        string(item, "id").as_str(),
        "  ",
        string(item, "project").as_str(),
        "  ",
        state,
        "  ",
        string(item, "question").as_str(),
    );
    cat3(
        head.as_str(),
        label("  选项: ", shown).as_str(),
        label("  结论: ", optional_string(item, "resolution")).as_str(),
    )
}

/// What `decisions` prints.
pub open spec fn decisions_lines(decisions: Seq<JsonV>, all: bool) -> Lines {
    let values = if all {
        decisions
    } else {
        decisions.filter(records::open_ones(None))
    };
    if values.len() == 0 {
        seq![if all { "(没有决策记录)"@ } else { "(没有待拍板事项)"@ }]
    } else {
        values.map_values(|item: JsonV| decision_line(item))
    }
}

/// What `decisions` prints.
pub fn list_decisions(decisions: &[Json], all: bool) -> (r: Vec<String>)
    ensures
        text::texts(r@) == decisions_lines(json::views(decisions@), all),
{
    let mut values: Vec<&Json> = Vec::new();
    if all {
        let mut k: usize = 0;
        while k < decisions.len()
            invariant
                k <= decisions.len(),
                values@.len() == k,
                forall|n: int| 0 <= n < k ==> #[trigger] values@[n]@ == decisions@[n]@,
            decreases decisions.len() - k,
        {
            values.push(&decisions[k]);
            k = k + 1;
        }
        proof {
            assert(records::ref_views(values@) =~= json::views(decisions@));
        }
    } else {
        values = open_decisions(decisions, None);
    }
    let ghost model = records::ref_views(values@);
    if values.len() == 0 {
        proof {
            assert(model.len() == 0);
        }
        return one_line(
            (if all {
                "(没有决策记录)"
            } else {
                "(没有待拍板事项)"
            }).to_owned(),
        );
    }
    let ghost goal = model.map_values(|item: JsonV| decision_line(item));
    let mut lines: Vec<String> = Vec::new();
    let mut i: usize = 0;
    proof {
        assert(text::texts(lines@) =~= goal.take(0));
    }
    while i < values.len()
        invariant
            i <= values.len(),
            model == records::ref_views(values@),
            goal == model.map_values(|item: JsonV| decision_line(item)),
            text::texts(lines@) == goal.take(i as int),
        decreases values.len() - i,
    {
        push_line(&mut lines, line_of_decision(values[i]));
        proof {
            assert(model[i as int] == values@[i as int]@);
            assert(goal.take(i as int).push(goal[i as int]) =~= goal.take(i + 1));
        }
        i = i + 1;
    }
    proof {
        assert(goal.take(i as int) =~= goal);
    }
    lines
}

/// The first line of an entry of the attention queue.
pub open spec fn attention_line(number: nat, item: JsonV) -> Seq<char> {
    text::padded_left(text::digits(number), 2) + ". P"@ + outside::compact_json(
        item.at("priority"@),
    ) + "  "@ + item.string("project"@) + "  "@ + item.string("kind"@) + "  "@ + item.string(
        "reason"@,
    ) + "  → "@ + item.string("required_actor"@)
}

fn line_of_attention(number: u64, item: &Json) -> (r: String)
    ensures
        r@ == attention_line(number as nat, item@),
{
    let head = cat7(
        pad_left(decimal(number).as_str(), 2).as_str(),
        ". P",
        compact(&item.at("priority")).as_str(),
        "  ",
        string(item, "project").as_str(),
        "  ",
        string(item, "kind").as_str(),
    );
    cat5(
        head.as_str(),
        "  ",
        string(item, "reason").as_str(),
        "  → ",
        string(item, "required_actor").as_str(),
    )
}

/// The two lines of every entry of the attention queue.
pub open spec fn queue_lines(items: Seq<JsonV>) -> Lines
    decreases items.len(),
{
    if items.len() == 0 {
        Seq::empty()
    } else {
        queue_lines(items.drop_last()).push(attention_line(items.len(), items.last())).push(
            "    "@ + items.last().string("action"@),
        )
    }
}

/// What `attention` prints.
pub open spec fn attention_lines(items: Seq<JsonV>, as_json: bool) -> Lines {
    if as_json {
        seq![outside::pretty_json(JsonV::Array(items))]
    } else if items.len() == 0 {
        seq!["(当前无需人工介入)"@]
    } else {
        queue_lines(items)
    }
}

/// What `attention` prints.
pub fn list_attention(items: &Vec<Json>, as_json: bool) -> (r: Vec<String>)
    ensures
        text::texts(r@) == attention_lines(json::views(items@), as_json),
{
    let ghost all = json::views(items@);
    if as_json {
        return one_line(pretty(&Json::Array(clone_items(items))));
    }
    if items.len() == 0 {
        return one_line("(当前无需人工介入)".to_owned());
    }
    let mut lines: Vec<String> = Vec::new();
    let mut i: usize = 0;
    proof {
        assert(text::texts(lines@) =~= queue_lines(all.take(0)));
    }
    while i < items.len()
        invariant
            i <= items.len(),
            all == json::views(items@),
            text::texts(lines@) == queue_lines(all.take(i as int)),
        decreases items.len() - i,
    {
        proof {
            assert(all.take(i + 1).drop_last() =~= all.take(i as int));
            assert(all.take(i + 1).last() == items@[i as int]@);
        }
        push_line(&mut lines, line_of_attention((i + 1) as u64, &items[i]));
        push_line(&mut lines, cat2("    ", string(&items[i], "action").as_str()));
        i = i + 1;
    }
    proof {
        assert(all.take(i as int) =~= all);
    }
    lines
}

/// What an entry of the inbox refers to.
pub open spec fn inbox_reference(entry: JsonV) -> Seq<char> {
    let decision = entry.optional_string("decision_id"@);
    let claim = entry.optional_string("claim_id"@);
    labelled(" · 决策 "@, decision) + labelled(" · claim "@, claim)
}

/// The line of an entry of the inbox.
pub open spec fn inbox_line(entry: JsonV) -> Seq<char> {
    "["@ + entry.string("ts"@) + "] "@ + entry.string("project"@) + " · "@ + entry.string(
        "status"@,
    ) + " · "@ + entry.string("summary"@) + inbox_reference(entry)
}

fn line_of_inbox(entry: &Json) -> (r: String)
    ensures
        r@ == inbox_line(entry@),
{
    let reference = cat2(
        label(" · 决策 ", optional_string(entry, "decision_id")).as_str(),
        label(" · claim ", optional_string(entry, "claim_id")).as_str(),
    );
    let head = cat7(
        "[",
        string(entry, "ts").as_str(),
        "] ",
        string(entry, "project").as_str(),
        " · ",
        string(entry, "status").as_str(),
        " · ",
    );
    cat3(head.as_str(), string(entry, "summary").as_str(), reference.as_str())
}

/// What `inbox` prints: all entries, or those from the cursor on.
pub open spec fn inbox_lines(entries: Seq<JsonV>, all: bool, cursor: nat) -> Lines {
    let values = if all {
        entries
    } else if cursor <= entries.len() {
        entries.skip(cursor as int)
    } else {
        Seq::empty()
    };
    if values.len() == 0 {
        seq![if entries.len() == 0 && all { "(收件箱为空)"@ } else { "(没有新消息)"@ }]
    } else {
        values.map_values(|entry: JsonV| inbox_line(entry))
    }
}

/// What `inbox` prints.
pub fn list_inbox(entries: &Vec<Json>, all: bool, cursor: u64) -> (r: Vec<String>)
    ensures
        text::texts(r@) == inbox_lines(json::views(entries@), all, cursor as nat),
{
    let ghost model = json::views(entries@);
    let total: usize = entries.len();
    let from: usize = if all {
        0
    } else if cursor <= total as u64 {
        cursor as usize
    } else {
        total
    };
    let ghost values = model.skip(from as int);
    proof {
        assert(model.skip(0) =~= model);
        assert(model.skip(total as int) =~= Seq::empty());
    }
    if from >= total {
        return one_line(
            (if total == 0 && all {
                "(收件箱为空)"
            } else {
                "(没有新消息)"
            }).to_owned(),
        );
    }
    let ghost goal = values.map_values(|entry: JsonV| inbox_line(entry));
    let mut lines: Vec<String> = Vec::new();
    let mut i: usize = from;
    proof {
        assert(text::texts(lines@) =~= goal.take(0));
    }
    while i < total
        invariant
            from <= i <= total,
            total == entries.len(),
            model == json::views(entries@),
            values == model.skip(from as int),
            goal == values.map_values(|entry: JsonV| inbox_line(entry)),
            text::texts(lines@) == goal.take(i - from),
        decreases total - i,
    {
        push_line(&mut lines, line_of_inbox(&entries[i]));
        proof {
            assert(values[i - from] == entries@[i as int]@);
            assert(goal.take(i - from).push(goal[i - from]) =~= goal.take(i + 1 - from));
        }
        i = i + 1;
    }
    proof {
        assert(goal.take(i - from) =~= goal);
    }
    lines
}

/// What is shown of the live state of a project.
pub open spec fn live_text(
    runtime: JsonV,
    project: Seq<char>,
    plugin: bool,
    watching: bool,
) -> Seq<char> {
    if runtime.flag("connected"@, false) {
        match attention::live_of(runtime, project) {
            Some(live) => live.string("live_status"@),
            None => "offline"@,
        }
    } else if plugin {
        "未对账"@
    } else if !watching {
        "未监听"@
    } else {
        "连接中断"@
    }
}

fn live_shown(runtime: &Json, project: &str, plugin: bool, watching: bool) -> (r: String)
    ensures
        r@ == live_text(runtime@, project@, plugin, watching),
{
    if runtime.flag("connected", false) {
        match runtime.at("projects").get(project) {
            Some(live) => string(live, "live_status"),
            None => "offline".to_owned(),
        }
    } else if plugin {
        "未对账".to_owned()
    } else if !watching {
        "未监听".to_owned()
    } else {
        "连接中断".to_owned()
    }
}

/// The question of the first open decision of a project.
pub open spec fn first_question(decisions: Seq<JsonV>, project: Seq<char>) -> Option<Seq<char>> {
    let open = decisions.filter(records::open_ones(Some(project)));
    if open.len() == 0 {
        None
    } else {
        Some(open[0].string("question"@))
    }
}

/// The line of a project.
pub open spec fn project_line(
    project: Seq<char>,
    entry: JsonV,
    decisions: Seq<JsonV>,
    live: Seq<char>,
) -> Seq<char> {
    text::padded(project, 16) + " 机长="@ + text::padded(entry.string("commander"@), 14)
        + " 项目="@ + text::padded(records::effective(entry, decisions, project), 14) + " 实时="@
        + text::padded(live, 10) + " 更新="@ + entry.string("updated_at"@) + "  "@
        + entry.string("note"@) + labelled("  待拍板="@, first_question(decisions, project))
        + labelled("  claim="@, entry.optional_string("claim_state"@))
}

fn line_of_project(project: &str, entry: &Json, decisions: &[Json], live: &str) -> (r: String)
    ensures
        r@ == project_line(project@, entry@, json::views(decisions@), live@),
{
    let open = open_decisions(decisions, Some(project));
    proof {
        assert(records::ref_views(open@).len() == open@.len());
    }
    let question: Option<String> = if open.len() == 0 {
        None
    } else {
        proof {
            assert(records::ref_views(open@)[0] == open@[0]@);
        }
        Some(string(open[0], "question"))
    };
    let head = cat6(
        pad(project, 16).as_str(),
        " 机长=",
        pad(string(entry, "commander").as_str(), 14).as_str(),
        " 项目=",
        pad(effective_status(entry, decisions, project).as_str(), 14).as_str(),
        " 实时=",
    );
    let middle = cat6(
        head.as_str(),
        pad(live, 10).as_str(),
        " 更新=",
        string(entry, "updated_at").as_str(),
        "  ",
        string(entry, "note").as_str(),
    );
    cat3(
        middle.as_str(),
        label("  待拍板=", question).as_str(),
        label("  claim=", optional_string(entry, "claim_state")).as_str(),
    )
}

/// The lines of the projects, in the order of their names.
pub open spec fn project_lines(
    projects: Seq<Seq<char>>,
    registry: Members,
    decisions: Seq<JsonV>,
    runtime: JsonV,
    plugin: bool,
    watching: bool,
) -> Lines {
    projects.map_values(
        |project: Seq<char>|
            project_line(
                project,
                registry[project],
                decisions,
                live_text(runtime, project, plugin, watching),
            ),
    )
}

/// The commanders of the registered projects.
pub open spec fn commanders_of(registry: Members) -> Lines {
    json::name_order(registry).map_values(
        |project: Seq<char>| registry[project].string("commander"@),
    )
}

/// The commanders that are alive and not registered.
pub open spec fn ghosts_among(agents: Seq<JsonV>, commanders: Lines) -> Lines
    decreases agents.len(),
{
    if agents.len() == 0 {
        Seq::empty()
    } else {
        let rest = ghosts_among(agents.drop_last(), commanders);
        match agents.last().optional_string("name"@) {
            Some(name) => if text::has_suffix(name, "-cmd"@) && !commanders.contains(name) {
                rest.push(name)
            } else {
                rest
            },
            None => rest,
        }
    }
}

fn find_ghosts(agents: &Vec<Json>, commanders: &[String]) -> (r: Vec<String>)
    ensures
        text::texts(r@) == ghosts_among(json::views(agents@), text::texts(commanders@)),
{
    let ghost all = json::views(agents@);
    let mut out: Vec<String> = Vec::new();
    let mut i: usize = 0;
    proof {
        assert(text::texts(out@) =~= ghosts_among(all.take(0), text::texts(commanders@)));
    }
    while i < agents.len()
        invariant
            i <= agents.len(),
            all == json::views(agents@),
            text::texts(out@) == ghosts_among(all.take(i as int), text::texts(commanders@)),
        decreases agents.len() - i,
    {
        proof {
            assert(all.take(i + 1).drop_last() =~= all.take(i as int));
            assert(all.take(i + 1).last() == agents@[i as int]@);
        }
        match optional_string(&agents[i], "name") {
            Some(name) => {
                if ends_with(name.as_str(), "-cmd") && !listed(commanders, name.as_str()) {
                    push_line(&mut out, name);
                }
            },
            None => {},
        }
        i = i + 1;
    }
    proof {
        assert(all.take(i as int) =~= all);
    }
    out
}

/// The line on the attention queue, where it is not empty.
pub open spec fn queue_summary(queue: Seq<JsonV>) -> Lines {
    if queue.len() == 0 {
        Seq::empty()
    } else {
        seq![
            "⚠ attention="@ + text::digits(queue.len()) + "  top="@ + queue[0].string("project"@)
                + "/"@ + queue[0].string("kind"@) + ": "@ + queue[0].string("reason"@),
        ]
    }
}

/// What `list` prints of a registry that is not empty.
pub open spec fn list_lines(
    registry: Members,
    decisions: Seq<JsonV>,
    runtime: JsonV,
    plugin: bool,
    watching: bool,
    queue: Seq<JsonV>,
) -> Lines {
    let ghosts = ghosts_among(runtime::agents_of(runtime), commanders_of(registry));
    let stray: Lines = if ghosts.len() == 0 {
        Seq::empty()
    } else {
        seq!["⚠ 存活但未注册的机长: "@ + text::joined(ghosts, ", "@)]
    };
    let idle: Lines = if plugin || watching {
        Seq::empty()
    } else {
        seq!["⚠ 事件监听器未运行；执行 ./fleet watch-start，或安装为 Herdr plugin"@]
    };
    project_lines(
        json::name_order(registry),
        registry,
        decisions,
        runtime,
        plugin,
        watching,
    ) + stray + queue_summary(queue) + idle
}

fn list_projects(
    registry: &Object,
    decisions: &[Json],
    runtime: &Json,
    plugin: bool,
    watching: bool,
) -> (r: (Vec<String>, Vec<String>))
    ensures
        text::texts(r.0@) == project_lines(
            json::name_order(registry@),
            registry@,
            json::views(decisions@),
            runtime@,
            plugin,
            watching,
        ),
        text::texts(r.1@) == commanders_of(registry@),
{
    let projects = sorted_registry(registry);
    let ghost order = json::name_order(registry@);
    let ghost shown = project_lines(
        order,
        registry@,
        json::views(decisions@),
        runtime@,
        plugin,
        watching,
    );
    let ghost heads = commanders_of(registry@);
    let mut lines: Vec<String> = Vec::new();
    let mut commanders: Vec<String> = Vec::new();
    let mut n: usize = 0;
    proof {
        assert(text::texts(lines@) =~= shown.take(0));
        assert(text::texts(commanders@) =~= heads.take(0));
    }
    while n < projects.len()
        invariant
            n <= projects.len(),
            projects.len() == order.len(),
            order == json::name_order(registry@),
            forall|i: int|
                0 <= i < projects@.len() ==> (#[trigger] projects@[i]).0@ == order[i]
                    && projects@[i].1@ == registry@[order[i]],
            shown == project_lines(
                order,
                registry@,
                json::views(decisions@),
                runtime@,
                plugin,
                watching,
            ),
            heads == commanders_of(registry@),
            text::texts(lines@) == shown.take(n as int),
            text::texts(commanders@) == heads.take(n as int),
        decreases projects.len() - n,
    {
        let project = projects[n].0.as_str();
        let entry = &projects[n].1;
        let live = live_shown(runtime, project, plugin, watching);
        push_line(&mut lines, line_of_project(project, entry, decisions, live.as_str()));
        push_line(&mut commanders, string(entry, "commander"));
        proof {
            assert(order[n as int] == project@);
            assert(shown.take(n as int).push(shown[n as int]) =~= shown.take(n + 1));
            assert(heads.take(n as int).push(heads[n as int]) =~= heads.take(n + 1));
        }
        n = n + 1;
    }
    proof {
        assert(shown.take(n as int) =~= shown);
        assert(heads.take(n as int) =~= heads);
    }
    (lines, commanders)
}

/// What `list` prints of a registry that is not empty.
pub fn list_registry(
    registry: &Object,
    decisions: &[Json],
    runtime: &Json,
    plugin: bool,
    watching: bool,
    queue: &Vec<Json>,
) -> (r: Vec<String>)
    ensures
        text::texts(r@) == list_lines(
            registry@,
            json::views(decisions@),
            runtime@,
            plugin,
            watching,
            json::views(queue@),
        ),
{
    let (mut lines, commanders) = list_projects(registry, decisions, runtime, plugin, watching);
    let ghosts = find_ghosts(&runtime::snapshot_agents(runtime), commanders.as_slice());
    let ghost first = text::texts(lines@);
    proof {
        assert(text::texts(ghosts@).len() == ghosts@.len());
    }
    if ghosts.len() > 0 {
        push_line(&mut lines, cat2("⚠ 存活但未注册的机长: ", join(ghosts.as_slice(), ", ").as_str()));
    }
    if queue.len() > 0 {
        proof {
            assert(json::views(queue@)[0] == queue@[0]@);
        }
        let head = cat7(
            "⚠ attention=",
            decimal(queue.len() as u64).as_str(),
            "  top=",
            string(&queue[0], "project").as_str(),
            "/",
            string(&queue[0], "kind").as_str(),
            ": ",
        );
        push_line(&mut lines, cat2(head.as_str(), string(&queue[0], "reason").as_str()));
    }
    if !plugin && !watching {
        push_line(
            &mut lines,
            "⚠ 事件监听器未运行；执行 ./fleet watch-start，或安装为 Herdr plugin".to_owned(),
        );
    }
    proof {
        assert(text::texts(lines@) =~= list_lines(
            registry@,
            json::views(decisions@),
            runtime@,
            plugin,
            watching,
            json::views(queue@),
        ));
    }
    lines
}

} // verus!
