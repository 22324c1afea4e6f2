//! What holds of the values that the documents are made of, and of what a
//! refusal says.
use vstd::prelude::*;
use crate::fault::{FaultKind, FaultV};
use crate::fault;
use crate::json::{JsonV, Members};
use crate::json;
use crate::order;
use crate::records;
use crate::text_laws;
use crate::text;

verus! {

/// An object has the members that it holds; what is no object has none.
pub proof fn law_members_are_those_held(members: Members, value: JsonV, name: Seq<char>)
    ensures
        members.contains_key(name) ==> JsonV::Object(members).get(name) == Some(members[name]),
        !members.contains_key(name) ==> JsonV::Object(members).get(name) is None,
        !(value is Object) ==> value.get(name) is None,
{
}

/// A member is read in the form that is asked for, and as nothing, an empty
/// text or the default where it has another form or is missing.
pub proof fn law_member_is_read_by_its_form(
    value: JsonV,
    name: Seq<char>,
    body: Seq<char>,
    flag: bool,
    default: bool,
)
    ensures
        value.get(name) is Some ==> value.at(name) == value.get(name)->0,
        value.get(name) is None ==> value.at(name) == JsonV::Null,
        value.get(name) == Some(JsonV::Text(body)) ==> value.string(name) == body
            && value.optional_string(name) == Some(body),
        !(value.at(name) is Text) ==> value.string(name).len() == 0 && value.optional_string(
            name,
        ) is None,
        value.get(name) == Some(JsonV::Bool(flag)) ==> value.flag(name, default) == flag,
        !(value.at(name) is Bool) ==> value.flag(name, default) == default,
{
}

/// A value is read as a number where it is one that fits, as a list where it is
/// one, and as nothing otherwise.
pub proof fn law_value_is_read_by_its_form(value: JsonV, n: int, items: Seq<JsonV>)
    ensures
        i64::MIN <= n <= i64::MAX <==> JsonV::Int(n).as_i64() == Some(n),
        0 <= n <= u64::MAX <==> JsonV::Int(n).as_u64() == Some(n),
        !(value is Int) ==> value.as_i64() is None && value.as_u64() is None,
        JsonV::Int(n).as_i64() is Some ==> JsonV::Int(n).as_i64() == Some(n),
        JsonV::Int(n).as_u64() is Some ==> JsonV::Int(n).as_u64() == Some(n),
        JsonV::Array(items).items() == items,
        !(value is Array) ==> value.items().len() == 0,
{
}

/// A member that is set reads as it was set, and every other as before.
pub proof fn law_member_is_set(value: JsonV, name: Seq<char>, member: JsonV, other: Seq<char>)
    ensures
        ({
            let after = records::with_member(value, name, member);
            &&& after.get(name) == Some(member)
            &&& other != name ==> after.get(other) == value.get(other)
        }),
{
}

/// Texts are kept in a list in their order, and a text that is missing is
/// null.
pub proof fn law_texts_are_listed(values: Seq<Seq<char>>, k: int, value: Option<Seq<char>>)
    ensures
        json::text_array(values).items().len() == values.len(),
        0 <= k < values.len() ==> json::text_array(values).items()[k] == JsonV::Text(values[k]),
        value is Some ==> json::text_or_null(value) == JsonV::Text(value->0),
        value is None ==> json::text_or_null(value) == JsonV::Null,
{
}

/// Values are the same only where they have the same form: equal numbers and
/// texts, lists of the same values, objects with the same members.
pub proof fn law_same_values_have_the_same_parts(
    left: JsonV,
    right: JsonV,
    name: Seq<char>,
    k: int,
)
    requires
        json::same_value(left, right),
    ensures
        left is Null <==> right is Null,
        left is Bool || left is Text || left is Int ==> left == right,
        left.items().len() == right.items().len(),
        0 <= k < left.items().len() ==> json::same_value(left.items()[k], right.items()[k]),
        left is Object <==> right is Object,
        left.get(name) is Some <==> right.get(name) is Some,
        left.get(name) is Some ==> json::same_value(left.at(name), right.at(name)),
{
    match (left, right) {
        (JsonV::Object(a), JsonV::Object(b)) => {
            assert(a.dom().contains(name) == b.dom().contains(name));
        },
        _ => {},
    }
}

/// The names of an object stand in their order, each once.
pub proof fn law_names_stand_in_order(members: Members, name: Seq<char>, i: int, j: int)
    requires
        members.dom().finite(),
    ensures
        json::name_order(members).contains(name) <==> members.contains_key(name),
        0 <= i < j < json::name_order(members).len() ==> text::before(
            json::name_order(members)[i],
            json::name_order(members)[j],
        ),
{
    json::lemma_name_order(members);
    let names = json::name_order(members);
    assert(json::is_name_order(names, members));
    if 0 <= i < j < names.len() {
        assert(text::before(names[i], names[j]));
    }
}

/// Whoever is put into an order stands behind all that it does not go before,
/// its equals among them, and before all the others; those keep their places.
pub proof fn law_newcomer_stands_behind_its_equals<A>(
    values: Seq<A>,
    value: A,
    ahead: spec_fn(A, A) -> bool,
) -> (k: int)
    requires
        order::is_ranking(ahead),
    ensures
        ({
            let before = order::arranged(values, ahead);
            &&& 0 <= k <= before.len()
            &&& order::arranged(values.push(value), ahead) == before.insert(k, value)
            &&& forall|n: int| 0 <= n < k ==> !ahead(value, #[trigger] before[n])
            &&& forall|n: int| k <= n < before.len() ==> ahead(value, #[trigger] before[n])
        }),
{
    assert(values.push(value).drop_last() =~= values);
    order::lemma_arranged_in_order(values, ahead);
    lemma_placed_behind(order::arranged(values, ahead), value, ahead)
}

proof fn lemma_placed_behind<A>(
    sorted: Seq<A>,
    value: A,
    ahead: spec_fn(A, A) -> bool,
) -> (k: int)
    requires
        order::is_ranking(ahead),
        order::in_order(sorted, ahead),
    ensures
        0 <= k <= sorted.len(),
        order::placed(sorted, value, ahead) == sorted.insert(k, value),
        forall|n: int| 0 <= n < k ==> !ahead(value, #[trigger] sorted[n]),
        forall|n: int| k <= n < sorted.len() ==> ahead(value, #[trigger] sorted[n]),
    decreases sorted.len(),
{
    if sorted.len() == 0 || !ahead(value, sorted.last()) {
        let k = sorted.len() as int;
        assert(sorted.push(value) =~= sorted.insert(k, value));
        assert forall|n: int| 0 <= n < k implies !ahead(value, #[trigger] sorted[n]) by {
            if n < k - 1 {
                assert(!ahead(sorted[k - 1], sorted[n]));
            }
        }
        k
    } else {
        let rest = sorted.drop_last();
        assert forall|i: int, j: int| 0 <= i < j < rest.len() implies !ahead(
            #[trigger] rest[j],
            #[trigger] rest[i],
        ) by {
            assert(!ahead(sorted[j], sorted[i]));
        }
        let k = lemma_placed_behind(rest, value, ahead);
        assert(rest.insert(k, value).push(sorted.last()) =~= sorted.insert(k, value));
        assert forall|n: int| 0 <= n < k implies !ahead(value, #[trigger] sorted[n]) by {
            assert(rest[n] == sorted[n]);
        }
        assert forall|n: int| k <= n < sorted.len() implies ahead(
            value,
            #[trigger] sorted[n],
        ) by {
            if n < rest.len() {
                assert(rest[n] == sorted[n]);
            }
        }
        k
    }
}

/// A refusal that is about something names it.
pub proof fn law_refusal_names_its_subject(kind: FaultKind, subject: Seq<char>)
    requires
        kind == FaultKind::Unregistered || kind == FaultKind::MissingValue || kind
            == FaultKind::NothingToVerify || kind == FaultKind::ClaimVanished || kind
            == FaultKind::NothingToAccept || kind == FaultKind::UnknownDecision || kind
            == FaultKind::AlreadyResolved || kind == FaultKind::NoCommander || kind
            == FaultKind::UnknownDelivery || kind == FaultKind::NotLeased || kind
            == FaultKind::DeliveryLost || kind == FaultKind::PromptFailed || kind
            == FaultKind::AlreadyWatching || kind == FaultKind::StartFailed || kind
            == FaultKind::Foreign,
    ensures
        text::occurs(fault::fault_message(fault::about(kind, subject)), subject),
        fault::fault_report(fault::about(kind, subject)) == fault::fault_message(
            fault::about(kind, subject),
        ),
{
    let message = fault::fault_message(fault::about(kind, subject));
    let before = message_before(kind);
    let behind = message_behind(kind);
    assert(message =~= before + subject + behind);
    text_laws::law_parts_of_a_text(before, subject, behind);
}

/// What stands before the subject of a refusal.
pub open spec fn message_before(kind: FaultKind) -> Seq<char> {
    match kind {
        FaultKind::Unregistered => "未注册的项目: "@,
        FaultKind::NothingToVerify => "项目 "@,
        FaultKind::ClaimVanished => "claim 在验证期间被删除: "@,
        FaultKind::NothingToAccept => "项目 "@,
        FaultKind::UnknownDecision => "找不到决策: "@,
        FaultKind::AlreadyResolved => "决策已经解决: "@,
        FaultKind::NoCommander => "项目 "@,
        FaultKind::UnknownDelivery => "未知投递: "@,
        FaultKind::NotLeased => "投递 "@,
        FaultKind::DeliveryLost => "投递记录丢失: "@,
        FaultKind::PromptFailed => "无法唤醒管制员 "@,
        FaultKind::AlreadyWatching => "事件监听器已在运行（pid "@,
        FaultKind::StartFailed => "事件监听器启动失败；查看 "@,
        _ => Seq::empty(),
    }
}

/// What stands behind the subject of a refusal.
pub open spec fn message_behind(kind: FaultKind) -> Seq<char> {
    match kind {
        FaultKind::Unregistered => "（先 fleet register）"@,
        FaultKind::MissingValue => " 后缺少参数"@,
        FaultKind::NothingToVerify => " 没有可验证的 claim"@,
        FaultKind::NothingToAccept => " 没有可验收的 claim"@,
        FaultKind::NoCommander => " 没有登记机长"@,
        FaultKind::NotLeased => " 尚未被管制员领取"@,
        FaultKind::AlreadyWatching => "）"@,
        _ => Seq::empty(),
    }
}

/// A refusal that has a cause tells it behind its message.
pub proof fn law_refusal_tells_its_cause(kind: FaultKind, cause: Seq<char>)
    requires
        kind == FaultKind::ConfidenceNoNumber || kind == FaultKind::BadSnapshot || kind
            == FaultKind::BadEvent || kind == FaultKind::BadTimeout,
    ensures
        fault::fault_report(fault::about(kind, cause)) == fault::fault_message(
            FaultV { kind, subject: cause },
        ) + ": "@ + cause,
        text::has_suffix(fault::fault_report(fault::about(kind, cause)), ": "@ + cause),
{
    let message = fault::fault_message(fault::about(kind, cause));
    assert(message + ": "@ + cause =~= message + (": "@ + cause));
    text_laws::law_parts_of_a_text(message, ": "@ + cause, Seq::empty());
}

} // verus!
