//! JSON documents as values of this crate.
//!
//! Every document of the coordinator (registry, claims, decisions, runtime,
//! deliveries) is a tree of [`Json`]. Its mathematical model is [`JsonV`], in
//! which an object is a map from member names to values.
use vstd::prelude::*;
use crate::outside::Real;
use crate::text;
use crate::text::{precedes, same};

verus! {

/// A JSON number.
#[derive(Debug)]
pub enum Number {
    Unsigned(u64),
    Negative(i64),
    Real(Real),
}

/// A value as a parser hands it over: the members of an object are a list in
/// which a name may come twice, and the last one counts.
pub(crate) enum Raw {
    Null,
    Bool(bool),
    Number(Number),
    Text(String),
    Array(Vec<Raw>),
    Object(Vec<(String, Raw)>),
}

/// A JSON value.
#[derive(Debug)]
pub enum Json {
    Null,
    Bool(bool),
    Number(Number),
    Text(String),
    Array(Vec<Json>),
    Object(Object),
}

/// The members of a JSON object, each name once, in lexicographic order.
#[derive(Debug)]
pub struct Object {
    entries: Vec<(String, Json)>,
}

/// The model of a JSON value.
pub enum JsonV {
    Null,
    Bool(bool),
    Int(int),
    Real(Seq<char>),
    Text(Seq<char>),
    Array(Seq<JsonV>),
    Object(Map<Seq<char>, JsonV>),
}

/// The model of an object: its members by name.
pub type Members = Map<Seq<char>, JsonV>;

impl Json {
    pub open spec fn view(&self) -> JsonV
        decreases self,
    {
        match self {
            Json::Null => JsonV::Null,
            Json::Bool(b) => JsonV::Bool(*b),
            Json::Number(Number::Unsigned(n)) => JsonV::Int(*n as int),
            Json::Number(Number::Negative(n)) => JsonV::Int(*n as int),
            Json::Number(Number::Real(t)) => JsonV::Real(t@),
            Json::Text(t) => JsonV::Text(t@),
            Json::Array(items) => JsonV::Array(views(items@)),
            Json::Object(object) => JsonV::Object(object.view()),
        }
    }
}

/// The models of a sequence of values.
pub open spec fn views(values: Seq<Json>) -> Seq<JsonV>
    decreases values,
{
    Seq::new(
        values.len(),
        |i: int|
            if 0 <= i < values.len() {
                values[i].view()
            } else {
                JsonV::Null
            },
    )
}

spec fn entries_view(entries: Seq<(String, Json)>) -> Map<Seq<char>, JsonV>
    decreases entries,
{
    if entries.len() == 0 {
        Map::empty()
    } else {
        entries_view(entries.drop_last()).insert(entries.last().0@, entries.last().1.view())
    }
}

/// The model of an optional borrowed value.
pub open spec fn opt_json(value: Option<&Json>) -> Option<JsonV> {
    match value {
        Some(json) => Some(json@),
        None => None,
    }
}

/// The model of an optional owned value.
pub open spec fn opt_json_owned(value: Option<Json>) -> Option<JsonV> {
    match value {
        Some(json) => Some(json@),
        None => None,
    }
}

/// Names in strictly increasing lexicographic order.
pub open spec fn increasing(names: Seq<Seq<char>>) -> bool {
    forall|i: int, j: int| 0 <= i < j < names.len() ==> text::before(#[trigger] names[i], #[trigger] names[j])
}

/// `names` lists the member names of `members`, each once, in order.
pub open spec fn is_name_order(names: Seq<Seq<char>>, members: Members) -> bool {
    &&& increasing(names)
    &&& forall|name: Seq<char>| #[trigger] names.contains(name) <==> members.contains_key(name)
}

/// The member names of an object in lexicographic order.
pub open spec fn name_order(members: Members) -> Seq<Seq<char>> {
    choose|names: Seq<Seq<char>>| is_name_order(names, members)
}

impl JsonV {
    /// The member `name`, where the value is an object that has it.
    pub open spec fn get(self, name: Seq<char>) -> Option<JsonV> {
        match self {
            JsonV::Object(members) => if members.contains_key(name) {
                Some(members[name])
            } else {
                None
            },
            _ => None,
        }
    }

    pub open spec fn as_text(self) -> Option<Seq<char>> {
        match self {
            JsonV::Text(text) => Some(text),
            _ => None,
        }
    }

    pub open spec fn as_bool(self) -> Option<bool> {
        match self {
            JsonV::Bool(b) => Some(b),
            _ => None,
        }
    }

    /// The value as a 64-bit signed integer, where it is one.
    pub open spec fn as_i64(self) -> Option<int> {
        match self {
            JsonV::Int(n) => if i64::MIN <= n <= i64::MAX {
                Some(n)
            } else {
                None
            },
            _ => None,
        }
    }

    /// The value as a 64-bit natural number, where it is one.
    pub open spec fn as_u64(self) -> Option<int> {
        match self {
            JsonV::Int(n) => if 0 <= n <= u64::MAX {
                Some(n)
            } else {
                None
            },
            _ => None,
        }
    }

    pub open spec fn as_array(self) -> Option<Seq<JsonV>> {
        match self {
            JsonV::Array(items) => Some(items),
            _ => None,
        }
    }

    pub open spec fn as_object(self) -> Option<Members> {
        match self {
            JsonV::Object(members) => Some(members),
            _ => None,
        }
    }

    /// The member `name`, or null where there is none.
    pub open spec fn at(self, name: Seq<char>) -> JsonV {
        match self.get(name) {
            Some(value) => value,
            None => JsonV::Null,
        }
    }

    /// The text of the member `name`, where it is a text.
    pub open spec fn optional_string(self, name: Seq<char>) -> Option<Seq<char>> {
        match self.get(name) {
            Some(value) => value.as_text(),
            None => None,
        }
    }

    /// The text of the member `name`, empty where it is no text.
    pub open spec fn string(self, name: Seq<char>) -> Seq<char> {
        match self.optional_string(name) {
            Some(text) => text,
            None => Seq::empty(),
        }
    }

    /// The truth value of the member `name`, or `default` where it is none.
    pub open spec fn flag(self, name: Seq<char>, default: bool) -> bool {
        match self.at(name).as_bool() {
            Some(b) => b,
            None => default,
        }
    }

    /// The items of an array; any other value has none.
    pub open spec fn items(self) -> Seq<JsonV> {
        match self {
            JsonV::Array(items) => items,
            _ => Seq::empty(),
        }
    }
}

/// A text, or null where there is none.
pub open spec fn text_or_null(value: Option<Seq<char>>) -> JsonV {
    match value {
        Some(text) => JsonV::Text(text),
        None => JsonV::Null,
    }
}

/// An array of texts.
pub open spec fn text_array(values: Seq<Seq<char>>) -> JsonV {
    JsonV::Array(Seq::new(values.len(), |i: int| JsonV::Text(values[i])))
}

proof fn lemma_increasing_distinct(names: Seq<Seq<char>>, i: int, j: int)
    requires
        increasing(names),
        0 <= i < names.len(),
        0 <= j < names.len(),
        names[i] == names[j],
    ensures
        i == j,
{
    text::lemma_before_irreflexive(names[i]);
    if i < j {
        assert(text::before(names[i], names[j]));
    } else if j < i {
        assert(text::before(names[j], names[i]));
    }
}

/// A name put into names that are in order.
proof fn lemma_name_placed(names: Seq<Seq<char>>, name: Seq<char>) -> (out: Seq<Seq<char>>)
    requires
        increasing(names),
        !names.contains(name),
    ensures
        increasing(out),
        forall|n: Seq<char>| #[trigger] out.contains(n) <==> names.contains(n) || n == name,
    decreases names.len(),
{
    if names.len() == 0 || text::before(names.last(), name) {
        let out = names.push(name);
        assert forall|i: int, j: int| 0 <= i < j < out.len() implies text::before(
            #[trigger] out[i],
            #[trigger] out[j],
        ) by {
            if j == names.len() && i < names.len() - 1 {
                assert(text::before(names[i], names[names.len() - 1]));
                text::lemma_before_transitive(names[i], names.last(), name);
            }
        }
        assert forall|n: Seq<char>| #[trigger] out.contains(n) <==> names.contains(n) || n
            == name by {
            if names.contains(n) {
                let k = choose|k: int| 0 <= k < names.len() && names[k] == n;
                assert(out[k] == n);
            }
            if n == name {
                assert(out[names.len() as int] == n);
            }
            if out.contains(n) && n != name {
                let k = choose|k: int| 0 <= k < out.len() && out[k] == n;
                assert(names[k] == n);
            }
        }
        out
    } else {
        let rest = names.drop_last();
        let last = names.last();
        assert(names[names.len() - 1] == last);
        text::lemma_before_total(last, name);
        assert(names.contains(last));
        assert(text::before(name, last));
        assert forall|i: int, j: int| 0 <= i < j < rest.len() implies text::before(
            #[trigger] rest[i],
            #[trigger] rest[j],
        ) by {
            assert(text::before(names[i], names[j]));
        }
        assert(!rest.contains(name)) by {
            if rest.contains(name) {
                let k = choose|k: int| 0 <= k < rest.len() && rest[k] == name;
                assert(names[k] == name);
            }
        }
        let placed = lemma_name_placed(rest, name);
        let out = placed.push(last);
        assert forall|i: int, j: int| 0 <= i < j < out.len() implies text::before(
            #[trigger] out[i],
            #[trigger] out[j],
        ) by {
            if j == placed.len() {
                assert(placed.contains(placed[i]));
                if placed[i] != name {
                    assert(rest.contains(placed[i]));
                    let k = choose|k: int| 0 <= k < rest.len() && rest[k] == placed[i];
                    assert(text::before(names[k], names[names.len() - 1]));
                }
            } else {
                assert(text::before(placed[i], placed[j]));
            }
        }
        assert forall|n: Seq<char>| #[trigger] out.contains(n) <==> names.contains(n) || n
            == name by {
            if out.contains(n) {
                let k = choose|k: int| 0 <= k < out.len() && out[k] == n;
                if k < placed.len() {
                    assert(placed[k] == n);
                    assert(placed.contains(n));
                    if n != name {
                        let m = choose|m: int| 0 <= m < rest.len() && rest[m] == n;
                        assert(names[m] == n);
                    }
                }
            }
            if names.contains(n) {
                let k = choose|k: int| 0 <= k < names.len() && names[k] == n;
                if k < rest.len() {
                    assert(rest[k] == n);
                    assert(rest.contains(n));
                    assert(placed.contains(n));
                    let m = choose|m: int| 0 <= m < placed.len() && placed[m] == n;
                    assert(out[m] == n);
                } else {
                    assert(out[placed.len() as int] == n);
                }
            }
            if n == name {
                assert(placed.contains(n));
                let m = choose|m: int| 0 <= m < placed.len() && placed[m] == n;
                assert(out[m] == n);
            }
        }
        out
    }
}

proof fn lemma_name_order_there(members: Members) -> (names: Seq<Seq<char>>)
    requires
        members.dom().finite(),
    ensures
        is_name_order(names, members),
    decreases members.dom().len(),
{
    if members.dom().len() == 0 {
        assert(members.dom() =~= Set::empty());
        let names = Seq::<Seq<char>>::empty();
        assert forall|n: Seq<char>| #[trigger] names.contains(n) <==> members.contains_key(n) by {
            assert(members.dom().contains(n) == members.contains_key(n));
        }
        names
    } else {
        let name = members.dom().choose();
        let rest = members.remove(name);
        assert(rest.dom() =~= members.dom().remove(name));
        let before = lemma_name_order_there(rest);
        assert(!before.contains(name));
        let names = lemma_name_placed(before, name);
        assert forall|n: Seq<char>| #[trigger] names.contains(n) <==> members.contains_key(n) by {
            assert(before.contains(n) <==> rest.contains_key(n));
        }
        names
    }
}

/// The names of finitely many members can be put in order.
pub proof fn lemma_name_order(members: Members)
    requires
        members.dom().finite(),
    ensures
        is_name_order(name_order(members), members),
{
    let names = lemma_name_order_there(members);
}

/// An object has one order of names.
pub proof fn lemma_name_order_unique(a: Seq<Seq<char>>, b: Seq<Seq<char>>, members: Members)
    requires
        is_name_order(a, members),
        is_name_order(b, members),
    ensures
        a == b,
    decreases a.len(),
{
    if a.len() == 0 {
        if b.len() > 0 {
            assert(b.contains(b[0]));
            assert(a.contains(b[0]));
        }
        assert(a =~= b);
    } else {
        assert(a.contains(a.last()));
        assert(b.contains(a.last()));
        let i = choose|i: int| 0 <= i < b.len() && b[i] == a.last();
        assert(b.contains(b.last()));
        assert(a.contains(b.last()));
        let j = choose|j: int| 0 <= j < a.len() && a[j] == b.last();
        if i < b.len() - 1 {
            assert(text::before(b[i], b[b.len() - 1]));
            if j < a.len() - 1 {
                assert(text::before(a[j], a[a.len() - 1]));
                text::lemma_before_asymmetric(a.last(), b.last());
            } else {
                text::lemma_before_irreflexive(a.last());
            }
        }
        let m = members.remove(a.last());
        let a1 = a.drop_last();
        let b1 = b.drop_last();
        assert forall|n: Seq<char>| #[trigger] a1.contains(n) <==> m.contains_key(n) by {
            if a1.contains(n) {
                let k = choose|k: int| 0 <= k < a1.len() && a1[k] == n;
                assert(a[k] == n);
                assert(a.contains(n));
                if n == a.last() {
                    lemma_increasing_distinct(a, k, a.len() - 1);
                }
            }
            if m.contains_key(n) {
                assert(a.contains(n));
                let k = choose|k: int| 0 <= k < a.len() && a[k] == n;
                assert(a1[k] == n);
            }
        }
        assert forall|n: Seq<char>| #[trigger] b1.contains(n) <==> m.contains_key(n) by {
            if b1.contains(n) {
                let k = choose|k: int| 0 <= k < b1.len() && b1[k] == n;
                assert(b[k] == n);
                assert(b.contains(n));
                if n == b.last() {
                    lemma_increasing_distinct(b, k, b.len() - 1);
                }
            }
            if m.contains_key(n) {
                assert(b.contains(n));
                let k = choose|k: int| 0 <= k < b.len() && b[k] == n;
                assert(b1[k] == n);
            }
        }
        lemma_name_order_unique(a1, b1, m);
        assert(a =~= a1.push(a.last()));
        assert(b =~= b1.push(b.last()));
    }
}

spec fn names_of(entries: Seq<(String, Json)>) -> Seq<Seq<char>> {
    Seq::new(entries.len(), |i: int| entries[i].0@)
}

proof fn lemma_entries(entries: Seq<(String, Json)>)
    requires
        increasing(names_of(entries)),
    ensures
        forall|name: Seq<char>|
            #![trigger entries_view(entries).contains_key(name)]
            entries_view(entries).contains_key(name) <==> names_of(entries).contains(name),
        forall|i: int|
            0 <= i < entries.len() ==> entries_view(entries).contains_key(
                (#[trigger] entries[i]).0@,
            ) && entries_view(entries)[entries[i].0@] == entries[i].1@,
    decreases entries.len(),
{
    if entries.len() > 0 {
        let rest = entries.drop_last();
        let names = names_of(entries);
        assert(names_of(rest) =~= names.drop_last());
        lemma_entries(rest);
        assert forall|i: int| 0 <= i < entries.len() implies entries_view(entries).contains_key(
            (#[trigger] entries[i]).0@,
        ) && entries_view(entries)[entries[i].0@] == entries[i].1@ by {
            if i < entries.len() - 1 {
                assert(rest[i] == entries[i]);
                if names[i] == names[entries.len() - 1] {
                    lemma_increasing_distinct(names, i, entries.len() - 1);
                }
            }
        }
        assert forall|name: Seq<char>|
            #![trigger entries_view(entries).contains_key(name)]
            entries_view(entries).contains_key(name) <==> names.contains(name) by {
            if entries_view(entries).contains_key(name) {
                if name == entries.last().0@ {
                    assert(names[entries.len() - 1] == name);
                } else {
                    assert(entries_view(rest).contains_key(name));
                    let k = choose|k: int| 0 <= k < rest.len() && names_of(rest)[k] == name;
                    assert(names[k] == name);
                }
            }
            if names.contains(name) {
                let k = choose|k: int| 0 <= k < names.len() && names[k] == name;
                assert(entries[k].0@ == name);
            }
        }
    }
}

impl Object {
    #[verifier::type_invariant]
    spec fn ordered(self) -> bool {
        increasing(names_of(self.entries@))
    }

    /// The members by name.
    pub closed spec fn view(&self) -> Map<Seq<char>, JsonV>
        decreases self,
    {
        entries_view(self.entries@)
    }

    /// An object without members.
    pub fn new() -> (r: Object)
        ensures
            r@ == Map::<Seq<char>, JsonV>::empty(),
    {
        Object { entries: Vec::new() }
    }

    pub fn is_empty(&self) -> (r: bool)
        ensures
            r == (forall|name: Seq<char>| !#[trigger] self@.contains_key(name)),
            r == (self@ == Map::<Seq<char>, JsonV>::empty()),
    {
        proof {
            use_type_invariant(self);
            lemma_entries(self.entries@);
            if self.entries@.len() > 0 {
                assert(self@.contains_key(self.entries@[0].0@));
            } else {
                assert(self@ == Map::<Seq<char>, JsonV>::empty());
            }
        }
        self.entries.len() == 0
    }

    /// The value of the member `name`.
    pub fn get(&self, name: &str) -> (r: Option<&Json>)
        ensures
            opt_json(r) == JsonV::Object(self@).get(name@),
    {
        proof {
            use_type_invariant(self);
            lemma_entries(self.entries@);
        }
        let mut i: usize = 0;
        while i < self.entries.len()
            invariant
                i <= self.entries.len(),
                forall|k: int| 0 <= k < i ==> names_of(self.entries@)[k] != name@,
                forall|i: int|
                    0 <= i < self.entries@.len() ==> self@.contains_key(
                        (#[trigger] self.entries@[i]).0@,
                    ) && self@[self.entries@[i].0@] == self.entries@[i].1@,
            decreases self.entries.len() - i,
        {
            if same(self.entries[i].0.as_str(), name) {
                return Some(&self.entries[i].1);
            }
            i = i + 1;
        }
        proof {
            assert(!names_of(self.entries@).contains(name@));
        }
        None
    }

    pub fn contains(&self, name: &str) -> (r: bool)
        ensures
            r == self@.contains_key(name@),
    {
        self.get(name).is_some()
    }

    /// Gives the member `name` the value `value`.
    pub fn put(&mut self, name: &str, value: Json)
        ensures
            final(self)@ == old(self)@.insert(name@, value@),
    {
        proof {
            use_type_invariant(&*self);
            lemma_entries(self.entries@);
        }
        let ghost before_view = self@;
        let mut entries: Vec<(String, Json)> = Vec::new();
        std::mem::swap(&mut entries, &mut self.entries);
        let ghost start = entries@;
        let mut i: usize = 0;
        while i < entries.len() && precedes(entries[i].0.as_str(), name)
            invariant
                i <= entries.len(),
                entries@ == start,
                forall|k: int| 0 <= k < i ==> text::before(names_of(start)[k], name@),
            decreases entries.len() - i,
        {
            i = i + 1;
        }
        if i < entries.len() && same(entries[i].0.as_str(), name) {
            let ghost pair = (entries@[i as int].0, value);
            let owned = name.to_owned();
            entries.set(i, (owned, value));
            proof {
                assert(names_of(entries@) =~= names_of(start));
                lemma_entries(entries@);
                lemma_put_at(start, entries@, i as int, name@, value@);
            }
        } else {
            entries.insert(i, (name.to_owned(), value));
            proof {
                lemma_insert_order(start, entries@, i as int, name@);
                lemma_entries(entries@);
                lemma_insert_at(start, entries@, i as int, name@, value@);
            }
        }
        self.entries = entries;
    }

    /// Takes the member `name` out.
    pub fn remove(&mut self, name: &str) -> (r: Option<Json>)
        ensures
            opt_json_owned(r) == JsonV::Object(old(self)@).get(name@),
            final(self)@ == old(self)@.remove(name@),
    {
        proof {
            use_type_invariant(&*self);
            lemma_entries(self.entries@);
        }
        let mut entries: Vec<(String, Json)> = Vec::new();
        std::mem::swap(&mut entries, &mut self.entries);
        let ghost start = entries@;
        let mut i: usize = 0;
        while i < entries.len() && !same(entries[i].0.as_str(), name)
            invariant
                i <= entries.len(),
                entries@ == start,
                forall|k: int| 0 <= k < i ==> names_of(start)[k] != name@,
            decreases entries.len() - i,
        {
            i = i + 1;
        }
        if i == entries.len() {
            self.entries = entries;
            proof {
                assert(!names_of(start).contains(name@));
                assert(entries_view(start).remove(name@) =~= entries_view(start));
            }
            return None;
        }
        let pair = entries.remove(i);
        proof {
            lemma_remove_order(start, i as int);
            lemma_entries(entries@);
            lemma_remove_at(start, entries@, i as int, name@);
        }
        self.entries = entries;
        Some(pair.1)
    }

    /// The member names in lexicographic order.
    pub fn names(&self) -> (r: Vec<String>)
        ensures
            text::texts(r@) == name_order(self@),
            is_name_order(text::texts(r@), self@),
    {
        let mut out: Vec<String> = Vec::new();
        let mut i: usize = 0;
        while i < self.entries.len()
            invariant
                i <= self.entries.len(),
                text::texts(out@) =~= names_of(self.entries@).take(i as int),
            decreases self.entries.len() - i,
        {
            let ghost pre = out@;
            out.push(self.entries[i].0.clone());
            proof {
                assert(text::texts(out@) =~= text::texts(pre).push(self.entries@[i as int].0@));
            }
            i = i + 1;
        }
        proof {
            use_type_invariant(self);
            lemma_entries(self.entries@);
            let names = names_of(self.entries@);
            assert(text::texts(out@) =~= names);
            assert forall|name: Seq<char>| #[trigger] names.contains(name) implies self@.contains_key(name) by {
                let k = choose|k: int| 0 <= k < names.len() && names[k] == name;
                assert(self.entries@[k].0@ == name);
            }
            assert(is_name_order(names, self@));
            lemma_name_order_unique(names, name_order(self@), self@);
        }
        out
    }
}

proof fn lemma_put_at(
    start: Seq<(String, Json)>,
    end: Seq<(String, Json)>,
    i: int,
    name: Seq<char>,
    value: JsonV,
)
    requires
        increasing(names_of(start)),
        increasing(names_of(end)),
        0 <= i < start.len(),
        end.len() == start.len(),
        start[i].0@ == name,
        end[i].0@ == name,
        end[i].1@ == value,
        forall|k: int| 0 <= k < start.len() && k != i ==> end[k] == start[k],
        names_of(end) == names_of(start),
    ensures
        entries_view(end) == entries_view(start).insert(name, value),
{
    lemma_entries(start);
    lemma_entries(end);
    let target = entries_view(start).insert(name, value);
    assert forall|n: Seq<char>| #[trigger] entries_view(end).contains_key(n) <==> target.contains_key(
        n,
    ) by {
        assert(names_of(start)[i] == name);
        assert(entries_view(start).contains_key(n) <==> names_of(start).contains(n));
    }
    assert forall|n: Seq<char>| #[trigger]
        entries_view(end).contains_key(n) implies entries_view(end)[n] == target[n] by {
        let k = choose|k: int| 0 <= k < end.len() && names_of(end)[k] == n;
        assert(end[k].0@ == n);
        if k != i {
            assert(start[k].0@ == n);
            assert(names_of(start)[k] == n);
            if n == name {
                lemma_increasing_distinct(names_of(start), k, i);
            }
        }
    }
    assert(entries_view(end) =~= target);
}

proof fn lemma_insert_order(
    start: Seq<(String, Json)>,
    end: Seq<(String, Json)>,
    i: int,
    name: Seq<char>,
)
    requires
        increasing(names_of(start)),
        0 <= i <= start.len(),
        end.len() == start.len() + 1,
        end == start.insert(i, end[i]),
        end[i].0@ == name,
        forall|k: int| 0 <= k < i ==> text::before(names_of(start)[k], name),
        i < start.len() ==> !text::before(names_of(start)[i], name) && names_of(start)[i] != name,
    ensures
        increasing(names_of(end)),
{
    let s = names_of(start);
    let e = names_of(end);
    assert forall|a: int, b: int| 0 <= a < b < e.len() implies text::before(
        #[trigger] e[a],
        #[trigger] e[b],
    ) by {
        if a < i && b == i {
            assert(e[a] == s[a]);
        } else if a == i {
            assert(e[b] == s[b - 1]);
            text::lemma_before_total(name, s[i]);
            if b - 1 > i {
                assert(text::before(s[i], s[b - 1]));
                text::lemma_before_transitive(name, s[i], s[b - 1]);
            }
        } else if a < i && b > i {
            assert(e[a] == s[a]);
            assert(e[b] == s[b - 1]);
        } else if a < i {
            assert(e[a] == s[a]);
            assert(e[b] == s[b]);
        } else {
            assert(e[a] == s[a - 1]);
            assert(e[b] == s[b - 1]);
        }
    }
}

proof fn lemma_insert_at(
    start: Seq<(String, Json)>,
    end: Seq<(String, Json)>,
    i: int,
    name: Seq<char>,
    value: JsonV,
)
    requires
        increasing(names_of(start)),
        increasing(names_of(end)),
        0 <= i <= start.len(),
        end == start.insert(i, end[i]),
        end[i].0@ == name,
        end[i].1@ == value,
    ensures
        entries_view(end) == entries_view(start).insert(name, value),
{
    lemma_entries(start);
    lemma_entries(end);
    let target = entries_view(start).insert(name, value);
    assert forall|n: Seq<char>| #[trigger] entries_view(end).contains_key(n) <==> target.contains_key(
        n,
    ) by {
        if entries_view(end).contains_key(n) {
            let k = choose|k: int| 0 <= k < end.len() && names_of(end)[k] == n;
            if k < i {
                assert(names_of(start)[k] == n);
            } else if k > i {
                assert(names_of(start)[k - 1] == n);
            }
            assert(entries_view(start).contains_key(n) <==> names_of(start).contains(n));
        }
        if target.contains_key(n) {
            if n == name {
                assert(names_of(end)[i] == n);
            } else {
                assert(entries_view(start).contains_key(n));
                let k = choose|k: int| 0 <= k < start.len() && names_of(start)[k] == n;
                if k < i {
                    assert(names_of(end)[k] == n);
                } else {
                    assert(names_of(end)[k + 1] == n);
                }
            }
        }
    }
    assert forall|n: Seq<char>| #[trigger]
        entries_view(end).contains_key(n) implies entries_view(end)[n] == target[n] by {
        let k = choose|k: int| 0 <= k < end.len() && names_of(end)[k] == n;
        assert(end[k].0@ == n);
        if k != i {
            if n == name {
                lemma_increasing_distinct(names_of(end), k, i);
            }
            if k < i {
                assert(start[k] == end[k]);
            } else {
                assert(start[k - 1] == end[k]);
            }
        }
    }
    assert(entries_view(end) =~= target);
}

proof fn lemma_remove_order(start: Seq<(String, Json)>, i: int)
    requires
        increasing(names_of(start)),
        0 <= i < start.len(),
    ensures
        increasing(names_of(start.remove(i))),
{
    let s = names_of(start);
    let e = names_of(start.remove(i));
    assert forall|a: int, b: int| 0 <= a < b < e.len() implies text::before(
        #[trigger] e[a],
        #[trigger] e[b],
    ) by {
        let a1 = if a < i { a } else { a + 1 };
        let b1 = if b < i { b } else { b + 1 };
        assert(e[a] == s[a1]);
        assert(e[b] == s[b1]);
    }
}

proof fn lemma_remove_at(
    start: Seq<(String, Json)>,
    end: Seq<(String, Json)>,
    i: int,
    name: Seq<char>,
)
    requires
        increasing(names_of(start)),
        increasing(names_of(end)),
        0 <= i < start.len(),
        end == start.remove(i),
        start[i].0@ == name,
    ensures
        entries_view(end) == entries_view(start).remove(name),
{
    lemma_entries(start);
    lemma_entries(end);
    let target = entries_view(start).remove(name);
    assert forall|n: Seq<char>| #[trigger] entries_view(end).contains_key(n) <==> target.contains_key(
        n,
    ) by {
        if entries_view(end).contains_key(n) {
            let k = choose|k: int| 0 <= k < end.len() && names_of(end)[k] == n;
            let k1 = if k < i { k } else { k + 1 };
            assert(names_of(start)[k1] == n);
            assert(entries_view(start).contains_key(n));
            if n == name {
                lemma_increasing_distinct(names_of(start), k1, i);
            }
        }
        if target.contains_key(n) {
            assert(entries_view(start).contains_key(n));
            let k = choose|k: int| 0 <= k < start.len() && names_of(start)[k] == n;
            let k1 = if k < i { k } else { k - 1 };
            assert(names_of(end)[k1] == n);
        }
    }
    assert forall|n: Seq<char>| #[trigger]
        entries_view(end).contains_key(n) implies entries_view(end)[n] == target[n] by {
        let k = choose|k: int| 0 <= k < end.len() && names_of(end)[k] == n;
        assert(end[k].0@ == n);
        let k1 = if k < i { k } else { k + 1 };
        assert(start[k1] == end[k]);
    }
    assert(entries_view(end) =~= target);
}

impl Clone for Number {
    fn clone(&self) -> (r: Self)
        ensures
            r == *self,
    {
        match self {
            Number::Unsigned(n) => Number::Unsigned(*n),
            Number::Negative(n) => Number::Negative(*n),
            Number::Real(r) => Number::Real(r.copy()),
        }
    }
}

impl Clone for Json {
    fn clone(&self) -> (r: Self)
        ensures
            r@ == self@,
        decreases self,
    {
        match self {
            Json::Null => Json::Null,
            Json::Bool(b) => Json::Bool(*b),
            Json::Number(n) => Json::Number(n.clone()),
            Json::Text(t) => Json::Text(t.clone()),
            Json::Array(items) => Json::Array(clone_items(items)),
            Json::Object(object) => Json::Object(object.clone()),
        }
    }
}

/// A copy of every value.
pub fn clone_items(items: &Vec<Json>) -> (r: Vec<Json>)
    ensures
        views(r@) == views(items@),
    decreases items,
{
    let mut out: Vec<Json> = Vec::new();
    let mut i: usize = 0;
    while i < items.len()
        invariant
            i <= items.len(),
            views(out@) =~= views(items@).take(i as int),
        decreases items.len() - i,
    {
        let ghost pre = out@;
        assert(decreases_to!(items => items@[i as int]));
        let copy = items[i].clone();
        out.push(copy);
        proof {
            lemma_views_push(pre, copy);
            assert(views(items@)[i as int] == items@[i as int]@);
            assert(views(items@).take(i + 1) =~= views(items@).take(i as int).push(copy@));
        }
        i = i + 1;
    }
    proof {
        assert(views(items@).take(i as int) =~= views(items@));
    }
    out
}

/// Replacing a value replaces its model.
pub proof fn lemma_views_update(values: Seq<Json>, i: int, value: Json)
    requires
        0 <= i < values.len(),
    ensures
        views(values.update(i, value)) == views(values).update(i, value@),
{
    assert(views(values.update(i, value)) =~= views(values).update(i, value@));
}

pub proof fn lemma_views_push(values: Seq<Json>, value: Json)
    ensures
        views(values.push(value)) == views(values).push(value@),
{
    assert(views(values.push(value)) =~= views(values).push(value@));
}

impl Clone for Object {
    fn clone(&self) -> (r: Self)
        ensures
            r@ == self@,
        decreases self,
    {
        let mut out: Vec<(String, Json)> = Vec::new();
        let mut i: usize = 0;
        while i < self.entries.len()
            invariant
                i <= self.entries.len(),
                out@.len() == i,
                names_of(out@) =~= names_of(self.entries@).take(i as int),
                entries_view(out@) == entries_view(self.entries@.take(i as int)),
            decreases self.entries.len() - i,
        {
            let ghost pre = out@;
            let copy = self.entries[i].1.clone();
            out.push((self.entries[i].0.clone(), copy));
            proof {
                assert(out@.drop_last() =~= pre);
                assert(self.entries@.take(i + 1).drop_last() =~= self.entries@.take(i as int));
            }
            i = i + 1;
        }
        proof {
            use_type_invariant(self);
            assert(self.entries@.take(i as int) =~= self.entries@);
            assert(names_of(out@) =~= names_of(self.entries@));
        }
        Object { entries: out }
    }
}

impl Raw {
    pub(crate) open spec fn view(&self) -> JsonV
        decreases self,
    {
        match self {
            Raw::Null => JsonV::Null,
            Raw::Bool(b) => JsonV::Bool(*b),
            Raw::Number(number) => Json::Number(*number)@,
            Raw::Text(t) => JsonV::Text(t@),
            Raw::Array(items) => JsonV::Array(raw_views(items@)),
            Raw::Object(entries) => JsonV::Object(raw_members(entries@)),
        }
    }
}

pub(crate) open spec fn raw_views(values: Seq<Raw>) -> Seq<JsonV>
    decreases values,
{
    Seq::new(
        values.len(),
        |i: int|
            if 0 <= i < values.len() {
                values[i].view()
            } else {
                JsonV::Null
            },
    )
}

pub(crate) open spec fn raw_members(entries: Seq<(String, Raw)>) -> Members
    decreases entries,
{
    if entries.len() == 0 {
        Map::empty()
    } else {
        raw_members(entries.drop_last()).insert(entries.last().0@, entries.last().1.view())
    }
}

/// Puts a parsed value into the form of this crate.
pub(crate) fn settle(raw: &Raw) -> (r: Json)
    ensures
        r@ == raw@,
    decreases raw,
{
    match raw {
        Raw::Null => Json::Null,
        Raw::Bool(b) => Json::Bool(*b),
        Raw::Number(number) => Json::Number(number.clone()),
        Raw::Text(t) => Json::Text(t.clone()),
        Raw::Array(items) => Json::Array(settle_items(items)),
        Raw::Object(entries) => Json::Object(settle_members(entries)),
    }
}

fn settle_items(items: &Vec<Raw>) -> (r: Vec<Json>)
    ensures
        views(r@) == raw_views(items@),
    decreases items,
{
    let mut out: Vec<Json> = Vec::new();
    let mut i: usize = 0;
    while i < items.len()
        invariant
            i <= items.len(),
            views(out@) =~= raw_views(items@).take(i as int),
        decreases items.len() - i,
    {
        let ghost pre = out@;
        assert(decreases_to!(items => items@[i as int]));
        let value = settle(&items[i]);
        out.push(value);
        proof {
            lemma_views_push(pre, value);
            assert(raw_views(items@)[i as int] == items@[i as int]@);
            assert(raw_views(items@).take(i + 1) =~= raw_views(items@).take(i as int).push(value@));
        }
        i = i + 1;
    }
    proof {
        assert(raw_views(items@).take(i as int) =~= raw_views(items@));
    }
    out
}

fn settle_members(entries: &Vec<(String, Raw)>) -> (r: Object)
    ensures
        r@ == raw_members(entries@),
    decreases entries,
{
    let mut out = Object::new();
    let mut i: usize = 0;
    while i < entries.len()
        invariant
            i <= entries.len(),
            out@ == raw_members(entries@.take(i as int)),
        decreases entries.len() - i,
    {
        assert(decreases_to!(entries => entries@[i as int]));
        assert(decreases_to!(entries@[i as int] => entries@[i as int].1));
        let value = settle(&entries[i].1);
        out.put(entries[i].0.as_str(), value);
        proof {
            assert(entries@.take(i + 1).drop_last() =~= entries@.take(i as int));
        }
        i = i + 1;
    }
    proof {
        assert(entries@.take(i as int) =~= entries@);
    }
    out
}

impl Object {
    /// The members as a plain list, in the order of their names.
    pub(crate) fn list(&self) -> (r: &Vec<(String, Json)>)
        ensures
            is_name_order(name_order(self@), self@),
            r@.len() == name_order(self@).len(),
            forall|i: int|
                0 <= i < r@.len() ==> (#[trigger] r@[i]).0@ == name_order(self@)[i]
                    && self@.contains_key(r@[i].0@) && r@[i].1@ == self@[r@[i].0@],
    {
        proof {
            use_type_invariant(self);
            lemma_entries(self.entries@);
            let names = names_of(self.entries@);
            assert(is_name_order(names, self@));
            lemma_name_order_unique(names, name_order(self@), self@);
            assert forall|i: int| 0 <= i < self.entries@.len() implies (
            #[trigger] self.entries@[i]).0@ == name_order(self@)[i] by {
                assert(names[i] == self.entries@[i].0@);
            }
        }
        &self.entries
    }
}

/// Whether two numbers are equal as numbers: a real zero equals a real zero
/// of either sign.
pub open spec fn same_number(left: JsonV, right: JsonV) -> bool {
    match (left, right) {
        (JsonV::Int(a), JsonV::Int(b)) => a == b,
        (JsonV::Real(a), JsonV::Real(b)) => a == b || (real_zero(a) && real_zero(b)),
        _ => false,
    }
}

pub open spec fn real_zero(text: Seq<char>) -> bool {
    text == "0.0"@ || text == "-0.0"@
}

/// Whether two values are equal: scalars by value, arrays item by item,
/// objects member by member.
pub open spec fn same_value(left: JsonV, right: JsonV) -> bool
    decreases left,
{
    match left {
        JsonV::Null => right is Null,
        JsonV::Bool(a) => right == JsonV::Bool(a),
        JsonV::Text(a) => right == JsonV::Text(a),
        JsonV::Array(a) => match right {
            JsonV::Array(b) => a.len() == b.len() && forall|i: int|
                0 <= i < a.len() ==> same_value(#[trigger] a[i], b[i]),
            _ => false,
        },
        JsonV::Object(a) => match right {
            JsonV::Object(b) => {
                &&& a.dom() == b.dom()
                &&& forall|name: Seq<char>| #[trigger]
                    a.contains_key(name) ==> same_value(a[name], b[name])
            },
            _ => false,
        },
        _ => same_number(left, right),
    }
}

/// Two values are the same but for the digits of their real numbers.
pub open spec fn alike(left: JsonV, right: JsonV) -> bool
    decreases left,
{
    match left {
        JsonV::Real(_) => right is Real,
        JsonV::Array(a) => match right {
            JsonV::Array(b) => a.len() == b.len() && forall|i: int|
                0 <= i < a.len() ==> alike(#[trigger] a[i], b[i]),
            _ => false,
        },
        JsonV::Object(a) => match right {
            JsonV::Object(b) => {
                &&& a.dom() == b.dom()
                &&& forall|name: Seq<char>| #[trigger]
                    a.contains_key(name) ==> alike(a[name], b[name])
            },
            _ => false,
        },
        _ => left == right,
    }
}

/// Every value is like itself.
pub proof fn lemma_alike_itself(value: JsonV)
    ensures
        alike(value, value),
    decreases value,
{
    match value {
        JsonV::Array(items) => {
            assert forall|i: int| 0 <= i < items.len() implies alike(
                #[trigger] items[i],
                items[i],
            ) by {
                lemma_alike_itself(items[i]);
            }
        },
        JsonV::Object(members) => {
            assert forall|name: Seq<char>| #[trigger] members.contains_key(name) implies alike(
                members[name],
                members[name],
            ) by {
                lemma_alike_itself(members[name]);
            }
        },
        _ => {},
    }
}

/// Values that are alike give the same texts, truth values and integers under
/// every name, and values that are alike under every name.
pub proof fn lemma_alike_members(left: JsonV, right: JsonV, name: Seq<char>)
    requires
        alike(left, right),
    ensures
        left.get(name) is Some <==> right.get(name) is Some,
        left.get(name) is Some ==> alike(left.get(name)->0, right.get(name)->0),
        alike(left.at(name), right.at(name)),
        left.optional_string(name) == right.optional_string(name),
        left.string(name) == right.string(name),
        left.at(name).as_i64() == right.at(name).as_i64(),
        left.at(name).as_u64() == right.at(name).as_u64(),
        left is Object <==> right is Object,
        left is Null <==> right is Null,
{
    match left {
        JsonV::Object(a) => {
            assert(a.dom() == right->Object_0.dom());
            if a.contains_key(name) {
                assert(right->Object_0.dom().contains(name));
                assert(alike(a[name], right->Object_0[name]));
            } else {
                assert(!right->Object_0.dom().contains(name));
            }
        },
        _ => {},
    }
}

impl Json {
    /// An array without items.
    pub fn empty_array() -> (r: Json)
        ensures
            r@ == JsonV::Array(Seq::empty()),
    {
        let none: Vec<Json> = Vec::new();
        proof {
            assert(views(none@) =~= Seq::empty());
        }
        Json::Array(none)
    }

    /// An object without members.
    pub fn empty_object() -> (r: Json)
        ensures
            r@ == JsonV::Object(Map::empty()),
    {
        Json::Object(Object::new())
    }

    pub fn text(value: &str) -> (r: Json)
        ensures
            r@ == JsonV::Text(value@),
    {
        Json::Text(value.to_owned())
    }

    pub fn integer(value: i64) -> (r: Json)
        ensures
            r@ == JsonV::Int(value as int),
    {
        if value < 0 {
            Json::Number(Number::Negative(value))
        } else {
            Json::Number(Number::Unsigned(value as u64))
        }
    }

    pub fn natural(value: u64) -> (r: Json)
        ensures
            r@ == JsonV::Int(value as int),
    {
        Json::Number(Number::Unsigned(value))
    }

    /// A text, or null where there is none.
    pub fn optional(value: Option<&str>) -> (r: Json)
        ensures
            r@ == text_or_null(text::opt_text(value)),
    {
        match value {
            Some(text) => Json::text(text),
            None => Json::Null,
        }
    }

    pub fn get(&self, name: &str) -> (r: Option<&Json>)
        ensures
            opt_json(r) == self@.get(name@),
    {
        match self {
            Json::Object(object) => object.get(name),
            _ => None,
        }
    }

    pub fn as_str(&self) -> (r: Option<&str>)
        ensures
            text::opt_text(r) == self@.as_text(),
    {
        match self {
            Json::Text(text) => Some(text.as_str()),
            _ => None,
        }
    }

    pub fn as_bool(&self) -> (r: Option<bool>)
        ensures
            r == self@.as_bool(),
    {
        match self {
            Json::Bool(b) => Some(*b),
            _ => None,
        }
    }

    pub fn as_i64(&self) -> (r: Option<i64>)
        ensures
            match r {
                Some(n) => self@.as_i64() == Some(n as int),
                None => self@.as_i64() is None,
            },
    {
        match self {
            Json::Number(Number::Unsigned(n)) => if *n <= 0x7fff_ffff_ffff_ffffu64 {
                Some(*n as i64)
            } else {
                None
            },
            Json::Number(Number::Negative(n)) => Some(*n),
            _ => None,
        }
    }

    pub fn as_u64(&self) -> (r: Option<u64>)
        ensures
            match r {
                Some(n) => self@.as_u64() == Some(n as int),
                None => self@.as_u64() is None,
            },
    {
        match self {
            Json::Number(Number::Unsigned(n)) => Some(*n),
            Json::Number(Number::Negative(n)) => if *n >= 0 {
                Some(*n as u64)
            } else {
                None
            },
            _ => None,
        }
    }

    pub fn as_array(&self) -> (r: Option<&Vec<Json>>)
        ensures
            match r {
                Some(items) => self@ == JsonV::Array(views(items@)),
                None => self@.as_array() is None,
            },
    {
        match self {
            Json::Array(items) => Some(items),
            _ => None,
        }
    }

    pub fn as_object(&self) -> (r: Option<&Object>)
        ensures
            match r {
                Some(object) => self@ == JsonV::Object(object@),
                None => self@.as_object() is None,
            },
    {
        match self {
            Json::Object(object) => Some(object),
            _ => None,
        }
    }

    /// The truth value of the member `name`, or `default` where it is none.
    pub fn flag(&self, name: &str, default: bool) -> (r: bool)
        ensures
            r == self@.flag(name@, default),
    {
        match self.get(name) {
            Some(value) => match value.as_bool() {
                Some(b) => b,
                None => default,
            },
            None => default,
        }
    }

    /// A copy of the member `name`, or null where there is none.
    pub fn at(&self, name: &str) -> (r: Json)
        ensures
            r@ == self@.at(name@),
    {
        match self.get(name) {
            Some(value) => value.clone(),
            None => Json::Null,
        }
    }

    /// The items of an array; any other value has none.
    pub fn into_items(self) -> (r: Vec<Json>)
        ensures
            views(r@) == self@.items(),
    {
        match self {
            Json::Array(items) => items,
            _ => {
                let none: Vec<Json> = Vec::new();
                proof {
                    assert(views(none@) =~= Seq::empty());
                }
                none
            },
        }
    }

    /// Whether two values are equal.
    pub fn equals(&self, other: &Json) -> (r: bool)
        ensures
            r == same_value(self@, other@),
        decreases self,
    {
        match (self, other) {
            (Json::Null, Json::Null) => true,
            (Json::Bool(a), Json::Bool(b)) => *a == *b,
            (Json::Text(a), Json::Text(b)) => same(a.as_str(), b.as_str()),
            (Json::Number(a), Json::Number(b)) => a.equals(b),
            (Json::Array(a), Json::Array(b)) => items_equal(a, b),
            (Json::Object(a), Json::Object(b)) => a.equals(b),
            _ => false,
        }
    }
}

fn items_equal(a: &Vec<Json>, b: &Vec<Json>) -> (r: bool)
    ensures
        r == same_value(JsonV::Array(views(a@)), JsonV::Array(views(b@))),
    decreases a,
{
    if a.len() != b.len() {
        return false;
    }
    let mut i: usize = 0;
    while i < a.len()
        invariant
            i <= a.len(),
            a.len() == b.len(),
            forall|k: int| 0 <= k < i ==> same_value(#[trigger] views(a@)[k], views(b@)[k]),
        decreases a.len() - i,
    {
        assert(decreases_to!(a => a@[i as int]));
        proof {
            assert(views(a@)[i as int] == a@[i as int]@);
            assert(views(b@)[i as int] == b@[i as int]@);
        }
        if !a[i].equals(&b[i]) {
            return false;
        }
        i = i + 1;
    }
    true
}

impl Number {
    fn equals(&self, other: &Number) -> (r: bool)
        ensures
            r == same_number(Json::Number(*self)@, Json::Number(*other)@),
    {
        match (self, other) {
            (Number::Unsigned(a), Number::Unsigned(b)) => *a == *b,
            (Number::Negative(a), Number::Negative(b)) => *a == *b,
            (Number::Unsigned(a), Number::Negative(b)) => *b >= 0 && *a == *b as u64,
            (Number::Negative(a), Number::Unsigned(b)) => *a >= 0 && *a as u64 == *b,
            (Number::Real(a), Number::Real(b)) => same(a.spelling(), b.spelling()) || ((same(
                a.spelling(),
                "0.0",
            ) || same(a.spelling(), "-0.0")) && (same(b.spelling(), "0.0") || same(
                b.spelling(),
                "-0.0",
            ))),
            _ => false,
        }
    }
}

proof fn lemma_differ(a: Members, b: Members, name: Seq<char>)
    requires
        a.contains_key(name) != b.contains_key(name) || (a.contains_key(name) && !same_value(
            a[name],
            b[name],
        )),
    ensures
        !same_value(JsonV::Object(a), JsonV::Object(b)),
{
    if same_value(JsonV::Object(a), JsonV::Object(b)) {
        assert(a.contains_key(name) <==> b.contains_key(name));
        assert(a.contains_key(name) ==> same_value(a[name], b[name]));
    }
}

impl Object {
    fn equals(&self, other: &Object) -> (r: bool)
        ensures
            r == same_value(JsonV::Object(self@), JsonV::Object(other@)),
        decreases self,
    {
        proof {
            use_type_invariant(self);
            use_type_invariant(other);
            lemma_entries(self.entries@);
            lemma_entries(other.entries@);
        }
        let mut i: usize = 0;
        while i < self.entries.len()
            invariant
                i <= self.entries.len(),
                forall|k: int|
                    0 <= k < self.entries@.len() ==> self@.contains_key(
                        (#[trigger] self.entries@[k]).0@,
                    ) && self@[self.entries@[k].0@] == self.entries@[k].1@,
                forall|k: int|
                    0 <= k < i ==> other@.contains_key((#[trigger] self.entries@[k]).0@)
                        && same_value(self.entries@[k].1@, other@[self.entries@[k].0@]),
            decreases self.entries.len() - i,
        {
            assert(decreases_to!(self => self.entries));
            assert(decreases_to!(self.entries => self.entries@[i as int]));
            assert(decreases_to!(self.entries@[i as int] => self.entries@[i as int].1));
            match other.get(self.entries[i].0.as_str()) {
                None => {
                    proof {
                        let n = self.entries@[i as int].0@;
                        lemma_differ(self@, other@, n);
                    }
                    return false;
                },
                Some(value) => {
                    if !self.entries[i].1.equals(value) {
                        proof {
                            let n = self.entries@[i as int].0@;
                            lemma_differ(self@, other@, n);
                        }
                        return false;
                    }
                },
            }
            i = i + 1;
        }
        let mut j: usize = 0;
        while j < other.entries.len()
            invariant
                j <= other.entries.len(),
                forall|k: int|
                    0 <= k < other.entries@.len() ==> other@.contains_key(
                        (#[trigger] other.entries@[k]).0@,
                    ),
                forall|k: int| 0 <= k < j ==> self@.contains_key((#[trigger] other.entries@[k]).0@),
            decreases other.entries.len() - j,
        {
            if !self.contains(other.entries[j].0.as_str()) {
                proof {
                    lemma_differ(self@, other@, other.entries@[j as int].0@);
                }
                return false;
            }
            j = j + 1;
        }
        proof {
            assert forall|name: Seq<char>| #[trigger] self@.contains_key(name) <==> other@.contains_key(name) by {
                if self@.contains_key(name) {
                    let k = choose|k: int| 0 <= k < self.entries@.len() && names_of(self.entries@)[k] == name;
                    assert(self.entries@[k].0@ == name);
                }
                if other@.contains_key(name) {
                    let k = choose|k: int| 0 <= k < other.entries@.len() && names_of(other.entries@)[k] == name;
                    assert(other.entries@[k].0@ == name);
                }
            }
            assert(self@.dom() =~= other@.dom());
            assert forall|name: Seq<char>| #[trigger]
                self@.contains_key(name) implies same_value(self@[name], other@[name]) by {
                let k = choose|k: int| 0 <= k < self.entries@.len() && names_of(self.entries@)[k] == name;
                assert(self.entries@[k].0@ == name);
            }
        }
        true
    }
}

/// The text of the member `key`, empty where it is no text.
pub fn string(value: &Json, key: &str) -> (r: String)
    ensures
        r@ == value@.string(key@),
{
    match value.get(key) {
        Some(member) => match member.as_str() {
            Some(text) => text.to_owned(),
            None => String::new(),
        },
        None => String::new(),
    }
}

/// The text of the member `key`, where it is a text.
pub fn optional_string(value: &Json, key: &str) -> (r: Option<String>)
    ensures
        text::opt_string(r) == value@.optional_string(key@),
{
    match value.get(key) {
        Some(member) => match member.as_str() {
            Some(text) => Some(text.to_owned()),
            None => None,
        },
        None => None,
    }
}

/// Whether the text of the member `key` is `wanted`, a missing text counting
/// as the empty one.
pub fn string_is(value: &Json, key: &str, wanted: &str) -> (r: bool)
    ensures
        r == (value@.string(key@) == wanted@),
{
    same(string(value, key).as_str(), wanted)
}

/// An array of texts.
pub fn array_of(values: &[String]) -> (r: Json)
    ensures
        r@ == text_array(text::texts(values@)),
{
    let mut out: Vec<Json> = Vec::new();
    let mut i: usize = 0;
    while i < values.len()
        invariant
            i <= values.len(),
            views(out@) =~= Seq::new(i as nat, |k: int| JsonV::Text(values@[k]@)),
        decreases values.len() - i,
    {
        let ghost pre = out@;
        let item = Json::text(values[i].as_str());
        out.push(item);
        proof {
            lemma_views_push(pre, item);
        }
        i = i + 1;
    }
    proof {
        assert(views(out@) =~= Seq::new(
            text::texts(values@).len(),
            |k: int| JsonV::Text(text::texts(values@)[k]),
        ));
    }
    Json::Array(out)
}

} // verus!
