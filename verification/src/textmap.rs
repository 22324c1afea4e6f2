//! Texts by name: the files of a directory, the options of a command.
use vstd::prelude::*;
use crate::text;
use crate::text::same;

verus! {

/// One text and its name.
#[derive(Debug)]
pub struct TextEntry {
    name: String,
    body: String,
}

/// Texts by name.
#[derive(Debug)]
pub struct TextMap {
    entries: Vec<TextEntry>,
}

/// The model of texts by name.
pub type Texts = Map<Seq<char>, Seq<char>>;

spec fn holds_name(entries: Seq<TextEntry>, name: Seq<char>) -> bool {
    exists|i: int| 0 <= i < entries.len() && #[trigger] entries[i].name@ == name
}

spec fn body_of(entries: Seq<TextEntry>, name: Seq<char>) -> Seq<char> {
    let i = choose|i: int| 0 <= i < entries.len() && #[trigger] entries[i].name@ == name;
    entries[i].body@
}

spec fn names_differ(entries: Seq<TextEntry>) -> bool {
    forall|i: int, j: int|
        0 <= i < j < entries.len() ==> #[trigger] entries[i].name@ != #[trigger] entries[j].name@
}

spec fn texts_of(entries: Seq<TextEntry>) -> Texts {
    Map::new(|name: Seq<char>| holds_name(entries, name), |name: Seq<char>| body_of(entries, name))
}

proof fn lemma_body(entries: Seq<TextEntry>, i: int)
    requires
        names_differ(entries),
        0 <= i < entries.len(),
    ensures
        holds_name(entries, entries[i].name@),
        body_of(entries, entries[i].name@) == entries[i].body@,
        texts_of(entries).contains_key(entries[i].name@),
        texts_of(entries)[entries[i].name@] == entries[i].body@,
{
    let name = entries[i].name@;
    let k = choose|k: int| 0 <= k < entries.len() && #[trigger] entries[k].name@ == name;
    if k < i {
        assert(entries[k].name@ != entries[i].name@);
    } else if i < k {
        assert(entries[i].name@ != entries[k].name@);
    }
}

/// The text under a name, where there is one.
pub open spec fn text_under(files: Texts, name: Seq<char>) -> Option<Seq<char>> {
    if files.contains_key(name) {
        Some(files[name])
    } else {
        None
    }
}

impl TextMap {
    pub closed spec fn view(&self) -> Texts {
        texts_of(self.entries@)
    }

    #[verifier::type_invariant]
    spec fn named_apart(&self) -> bool {
        names_differ(self.entries@)
    }

    /// No texts at all.
    pub fn new() -> (r: TextMap)
        ensures
            r@ == Map::<Seq<char>, Seq<char>>::empty(),
    {
        let r = TextMap { entries: Vec::new() };
        proof {
            assert(r@ =~= Map::<Seq<char>, Seq<char>>::empty());
        }
        r
    }

    fn position(&self, name: &str) -> (r: Option<usize>)
        ensures
            match r {
                Some(i) => i < self.entries@.len() && self.entries@[i as int].name@ == name@,
                None => !holds_name(self.entries@, name@),
            },
    {
        let mut i: usize = 0;
        while i < self.entries.len()
            invariant
                i <= self.entries.len(),
                forall|k: int| 0 <= k < i ==> #[trigger] self.entries@[k].name@ != name@,
            decreases self.entries.len() - i,
        {
            if same(self.entries[i].name.as_str(), name) {
                return Some(i);
            }
            i = i + 1;
        }
        None
    }

    /// Whether there is a text with this name.
    pub fn has(&self, name: &str) -> (r: bool)
        ensures
            r == self@.contains_key(name@),
    {
        self.position(name).is_some()
    }

    /// The text with this name, where there is one.
    pub fn get(&self, name: &str) -> (r: Option<&str>)
        ensures
            text::opt_text(r) == text_under(self@, name@),
    {
        match self.position(name) {
            Some(i) => {
                proof {
                    use_type_invariant(self);
                    lemma_body(self.entries@, i as int);
                }
                Some(self.entries[i].body.as_str())
            },
            None => None,
        }
    }

    /// Puts a text in, over what was there under its name.
    pub fn put(&mut self, name: &str, body: &str)
        ensures
            final(self)@ == old(self)@.insert(name@, body@),
    {
        proof {
            use_type_invariant(&*self);
        }
        let ghost before = self.entries@;
        let found = self.position(name);
        let entry = TextEntry { name: name.to_owned(), body: body.to_owned() };
        let mut taken = TextMap::new();
        std::mem::swap(self, &mut taken);
        let mut entries = taken.entries;
        let ghost model = texts_of(before).insert(name@, body@);
        match found {
            Some(i) => {
                let ghost after = before.update(i as int, entry);
                proof {
                    assert(names_differ(after)) by {
                        assert forall|a: int, b: int| 0 <= a < b < after.len() implies #[trigger] after[a].name@
                            != #[trigger] after[b].name@ by {
                            assert(before[a].name@ != before[b].name@);
                        }
                    }
                    lemma_written(before, after, name@, body@, i as int);
                }
                entries.set(i, entry);
            },
            None => {
                let ghost after = before.push(entry);
                proof {
                    assert(names_differ(after)) by {
                        assert forall|a: int, b: int| 0 <= a < b < after.len() implies #[trigger] after[a].name@
                            != #[trigger] after[b].name@ by {
                            assert(after[a] == before[a]);
                            if b < before.len() {
                                assert(before[a].name@ != before[b].name@);
                            } else {
                                assert(before[a].name@ != name@);
                            }
                        }
                    }
                    lemma_written(before, after, name@, body@, before.len() as int);
                }
                entries.push(entry);
            },
        }
        proof {
            assert(texts_of(entries@) == model);
        }
        *self = TextMap { entries };
    }
}

proof fn lemma_written(
    before: Seq<TextEntry>,
    after: Seq<TextEntry>,
    name: Seq<char>,
    body: Seq<char>,
    at: int,
)
    requires
        names_differ(before),
        names_differ(after),
        before.len() <= after.len() <= before.len() + 1,
        0 <= at < after.len(),
        before.len() < after.len() ==> at == before.len(),
        at < before.len() ==> before[at].name@ == name,
        after[at].name@ == name,
        after[at].body@ == body,
        forall|k: int| 0 <= k < before.len() && k != at ==> #[trigger] after[k] == before[k],
    ensures
        texts_of(after) == texts_of(before).insert(name, body),
{
    let goal = texts_of(before).insert(name, body);
    assert forall|n: Seq<char>| texts_of(after).contains_key(n) == goal.contains_key(n) by {
        if holds_name(after, n) && n != name {
            let k = choose|k: int| 0 <= k < after.len() && #[trigger] after[k].name@ == n;
            assert(before[k].name@ == n);
        }
        if holds_name(before, n) {
            let k = choose|k: int| 0 <= k < before.len() && #[trigger] before[k].name@ == n;
            assert(after[k].name@ == n);
        }
        if n == name {
            assert(after[at].name@ == n);
        }
    }
    assert forall|n: Seq<char>| texts_of(after).contains_key(n) implies texts_of(after)[n]
        == goal[n] by {
        let k = choose|k: int| 0 <= k < after.len() && #[trigger] after[k].name@ == n;
        lemma_body(after, k);
        if n == name {
            lemma_body(after, at);
        } else {
            assert(after[k] == before[k]);
            lemma_body(before, k);
        }
    }
    assert(texts_of(after) =~= goal);
}

} // verus!
