//! How deep values are nested. A parser follows only so far; what it has read
//! is no deeper, and what is made of that stays so.
use vstd::prelude::*;
use crate::json::{JsonV, Members};
use crate::json;

verus! {

/// Arrays and objects are nested at most so deep in a value.
pub open spec fn is_within(value: JsonV, depth: nat) -> bool
    decreases depth,
{
    match value {
        JsonV::Array(items) => depth > 0 && forall|i: int|
            0 <= i < items.len() ==> is_within(#[trigger] items[i], (depth - 1) as nat),
        JsonV::Object(members) => depth > 0 && forall|name: Seq<char>| #[trigger]
            members.contains_key(name) ==> is_within(members[name], (depth - 1) as nat),
        _ => true,
    }
}

/// A value is nested no deeper than the parser of serde_json follows.
pub open spec fn is_shallow(value: JsonV) -> bool {
    is_within(value, 127)
}

/// Every item is nested at most so deep.
pub open spec fn all_within(items: Seq<JsonV>, depth: nat) -> bool {
    forall|i: int| 0 <= i < items.len() ==> is_within(#[trigger] items[i], depth)
}

/// Every member is nested at most so deep.
pub open spec fn members_within(members: Members, depth: nat) -> bool {
    forall|name: Seq<char>| #[trigger]
        members.contains_key(name) ==> is_within(members[name], depth)
}

/// A value holds no real numbers.
pub open spec fn is_real_free(value: JsonV) -> bool
    decreases value,
{
    match value {
        JsonV::Array(items) => forall|i: int|
            0 <= i < items.len() ==> is_real_free(#[trigger] items[i]),
        JsonV::Object(members) => forall|name: Seq<char>| #[trigger]
            members.contains_key(name) ==> is_real_free(members[name]),
        JsonV::Real(_) => false,
        _ => true,
    }
}

/// A value without reals is like itself alone.
pub proof fn lemma_alike_exact(left: JsonV, right: JsonV)
    requires
        json::alike(left, right),
        is_real_free(left),
    ensures
        left == right,
    decreases left,
{
    match left {
        JsonV::Array(a) => {
            let b = right->Array_0;
            assert forall|i: int| 0 <= i < a.len() implies a[i] == b[i] by {
                lemma_alike_exact(a[i], b[i]);
            }
            assert(a =~= b);
        },
        JsonV::Object(a) => {
            let b = right->Object_0;
            assert forall|name: Seq<char>| a.contains_key(name) implies a[name] == b[name] by {
                lemma_alike_exact(a[name], b[name]);
            }
            assert(a.dom() == b.dom());
            assert(a =~= b);
        },
        _ => {},
    }
}

/// What fits within a depth fits within a greater one.
pub proof fn lemma_deeper(value: JsonV, depth: nat, more: nat)
    requires
        is_within(value, depth),
        depth <= more,
    ensures
        is_within(value, more),
    decreases depth,
{
    match value {
        JsonV::Array(items) => {
            assert forall|i: int| 0 <= i < items.len() implies is_within(
                #[trigger] items[i],
                (more - 1) as nat,
            ) by {
                lemma_deeper(items[i], (depth - 1) as nat, (more - 1) as nat);
            }
        },
        JsonV::Object(members) => {
            assert forall|name: Seq<char>| #[trigger] members.contains_key(
                name,
            ) implies is_within(members[name], (more - 1) as nat) by {
                lemma_deeper(members[name], (depth - 1) as nat, (more - 1) as nat);
            }
        },
        _ => {},
    }
}

/// A member that is put in fits where it is less deep than the object may be.
pub proof fn lemma_insert(members: Members, name: Seq<char>, value: JsonV, depth: nat)
    requires
        members_within(members, depth),
        is_within(value, depth),
    ensures
        members_within(members.insert(name, value), depth),
{
}

/// An item that is put behind others fits where they do.
pub proof fn lemma_push(items: Seq<JsonV>, value: JsonV, depth: nat)
    requires
        all_within(items, depth),
        is_within(value, depth),
    ensures
        all_within(items.push(value), depth),
{
}

/// An item that takes the place of another fits where that one did.
pub proof fn lemma_update(items: Seq<JsonV>, i: int, value: JsonV, depth: nat)
    requires
        all_within(items, depth),
        is_within(value, depth),
        0 <= i < items.len(),
    ensures
        all_within(items.update(i, value), depth),
{
}

/// An object is as deep as its members, and one more.
pub proof fn lemma_object(members: Members, depth: nat)
    ensures
        members_within(members, depth) <==> is_within(JsonV::Object(members), depth + 1),
{
    let whole = JsonV::Object(members);
    reveal_with_fuel(is_within, 2);
    if is_within(whole, depth + 1) {
        assert forall|name: Seq<char>| #[trigger] members.contains_key(name) implies is_within(
            members[name],
            depth,
        ) by {
            assert(whole->Object_0.contains_key(name));
            assert(is_within(whole->Object_0[name], ((depth + 1) - 1) as nat));
        }
    }
    if members_within(members, depth) {
        assert(is_within(whole, depth + 1));
    }
}

/// An array is as deep as its items, and one more.
pub proof fn lemma_array(items: Seq<JsonV>, depth: nat)
    ensures
        all_within(items, depth) <==> is_within(JsonV::Array(items), depth + 1),
{
    let whole = JsonV::Array(items);
    reveal_with_fuel(is_within, 2);
    if is_within(whole, depth + 1) {
        assert forall|i: int| 0 <= i < items.len() implies is_within(
            #[trigger] items[i],
            depth,
        ) by {}
    }
    if all_within(items, depth) {
        assert(is_within(whole, depth + 1));
    }
}

} // verus!
