//! Tables of named values that remember the order in which the names came.

use crate::text::{lemma_filter_last, same_text};
use crate::values::TomlValue;
use vstd::prelude::*;

verus! {

/// Named values. No name occurs twice, and the names stay in the order in which they came.
#[derive(Debug)]
pub struct ValueTable {
    entries: Vec<(String, TomlValue)>,
}

/// What a [`ValueTable`] holds: the value of each name, and the names in order.
#[verifier::ext_equal]
pub struct TableView {
    pub values: Map<Seq<char>, TomlValue>,
    pub order: Seq<Seq<char>>,
}

impl TableView {
    /// The table without names.
    pub open spec fn empty() -> TableView {
        TableView { values: Map::empty(), order: Seq::empty() }
    }

    /// The order lists each name once, and those with a value only.
    pub open spec fn is_consistent(self) -> bool {
        &&& self.order.no_duplicates()
        &&& forall|name: Seq<char>|
            self.order.contains(name) <==> #[trigger] self.values.contains_key(name)
    }

    /// The table with `name` set to `value`. A name that is there keeps its place.
    pub open spec fn with(self, name: Seq<char>, value: TomlValue) -> TableView {
        TableView {
            values: self.values.insert(name, value),
            order: if self.values.contains_key(name) {
                self.order
            } else {
                self.order.push(name)
            },
        }
    }

    /// The names of `self` do not include the name.
    pub open spec fn lacks(self) -> spec_fn(Seq<char>) -> bool {
        |name: Seq<char>| !self.values.contains_key(name)
    }

    /// The table with everything that `more` holds. New names follow in the order of `more`.
    pub open spec fn with_all(self, more: TableView) -> TableView {
        TableView {
            values: self.values.union_prefer_right(more.values),
            order: self.order + more.order.filter(self.lacks()),
        }
    }
}

spec fn entry_names(entries: Seq<(String, TomlValue)>) -> Seq<Seq<char>> {
    entries.map_values(|entry: (String, TomlValue)| entry.0@)
}

spec fn entry_values(entries: Seq<(String, TomlValue)>) -> Map<Seq<char>, TomlValue>
    decreases entries.len(),
{
    if entries.len() == 0 {
        Map::empty()
    } else {
        entry_values(entries.drop_last()).insert(entries.last().0@, entries.last().1)
    }
}

proof fn lemma_entry_values(entries: Seq<(String, TomlValue)>)
    requires
        entry_names(entries).no_duplicates(),
    ensures
        forall|i: int|
            0 <= i < entries.len() ==> entry_values(entries).contains_key(
                #[trigger] entry_names(entries)[i],
            ) && entry_values(entries)[entry_names(entries)[i]] == entries[i].1,
        forall|name: Seq<char>| #[trigger]
            entry_values(entries).contains_key(name) ==> entry_names(entries).contains(name),
    decreases entries.len(),
{
    if entries.len() > 0 {
        let front = entries.drop_last();
        let names = entry_names(entries);
        assert(entry_names(front) =~= names.drop_last());
        lemma_entry_values(front);
        assert forall|i: int| 0 <= i < entries.len() implies entry_values(entries).contains_key(
            #[trigger] names[i],
        ) && entry_values(entries)[names[i]] == entries[i].1 by {
            if i < front.len() {
                assert(names[i] == entry_names(front)[i]);
                assert(names[i] != names[entries.len() - 1]);
                assert(entries[i] == front[i]);
            }
        }
        assert forall|name: Seq<char>| #[trigger]
            entry_values(entries).contains_key(name) implies names.contains(name) by {
            if name == entries.last().0@ {
                assert(names[entries.len() - 1] == name);
            } else {
                assert(entry_values(front).contains_key(name));
                let i = entry_names(front).index_of(name);
                assert(names[i] == name);
            }
        }
    }
}

impl View for ValueTable {
    type V = TableView;

    closed spec fn view(&self) -> TableView {
        TableView { values: entry_values(self.entries@), order: entry_names(self.entries@) }
    }
}

impl DeepView for ValueTable {
    type V = TableView;

    open spec fn deep_view(&self) -> TableView {
        self@
    }
}

impl ValueTable {
    #[verifier::type_invariant]
    spec fn names_are_distinct(self) -> bool {
        entry_names(self.entries@).no_duplicates()
    }

    /// A table without names.
    pub fn new() -> (r: ValueTable)
        ensures
            r@ == TableView::empty(),
    {
        let r: ValueTable = ValueTable { entries: Vec::new() };
        assert(r@ =~= TableView::empty());
        r
    }

    /// How many names there are.
    pub fn len(&self) -> (r: usize)
        ensures
            r == self@.order.len(),
            self@.is_consistent(),
    {
        proof {
            use_type_invariant(self);
            self.lemma_consistent();
        }
        self.entries.len()
    }

    /// The name at a place in the order, and its value.
    pub fn entry(&self, i: usize) -> (r: (&String, &TomlValue))
        requires
            i < self@.order.len(),
        ensures
            r.0@ == self@.order[i as int],
            self@.values.contains_key(r.0@),
            *r.1 == self@.values[r.0@],
            self@.is_consistent(),
    {
        proof {
            use_type_invariant(self);
            self.lemma_consistent();
            lemma_entry_values(self.entries@);
            assert(self@.order[i as int] == self.entries@[i as int].0@);
        }
        let entry: &(String, TomlValue) = &self.entries[i];
        (&entry.0, &entry.1)
    }

    /// The place of a name in the order.
    fn position(&self, name: &str) -> (r: Option<usize>)
        ensures
            match r {
                Some(i) => i < self.entries@.len() && self.entries@[i as int].0@ == name@,
                None => !self@.order.contains(name@),
            },
    {
        let mut i: usize = 0;
        while i < self.entries.len()
            invariant
                i <= self.entries@.len(),
                forall|j: int| 0 <= j < i ==> self.entries@[j].0@ != name@,
            decreases self.entries@.len() - i,
        {
            if same_text(self.entries[i].0.as_str(), name) {
                return Some(i);
            }
            i = i + 1;
        }
        None
    }

    proof fn lemma_consistent(&self)
        requires
            entry_names(self.entries@).no_duplicates(),
        ensures
            self@.is_consistent(),
    {
        lemma_entry_values(self.entries@);
        assert forall|name: Seq<char>|
            self@.order.contains(name) <==> #[trigger] self@.values.contains_key(name) by {
            if self@.order.contains(name) {
                let i = self@.order.index_of(name);
                assert(entry_names(self.entries@)[i] == name);
            }
        }
    }

    /// The value of a name.
    pub fn get(&self, name: &str) -> (r: Option<&TomlValue>)
        ensures
            match r {
                Some(value) => self@.values.contains_key(name@) && *value == self@.values[name@],
                None => !self@.values.contains_key(name@),
            },
    {
        proof {
            use_type_invariant(self);
            self.lemma_consistent();
            lemma_entry_values(self.entries@);
        }
        match self.position(name) {
            Some(i) => {
                assert(entry_names(self.entries@)[i as int] == name@);
                Some(&self.entries[i].1)
            },
            None => None,
        }
    }

    /// Sets a name to a value.
    pub fn insert(&mut self, name: String, value: TomlValue)
        ensures
            final(self)@ == old(self)@.with(name@, value),
            old(self)@.is_consistent(),
            final(self)@.is_consistent(),
    {
        proof {
            use_type_invariant(&*self);
            self.lemma_consistent();
            lemma_entry_values(self.entries@);
        }
        let place: Option<usize> = self.position(name.as_str());
        let mut entries: Vec<(String, TomlValue)> = Vec::new();
        assert(entry_names(entries@) =~= Seq::<Seq<char>>::empty());
        std::mem::swap(&mut entries, &mut self.entries);
        let ghost before = entries@;
        let ghost names = entry_names(before);
        let ghost key = name@;
        match place {
            Some(i) => {
                entries.set(i, (name, value));
                proof {
                    let after = entries@;
                    assert(entry_names(after) =~= names);
                    lemma_entry_values(after);
                    assert(names[i as int] == key);
                    assert(entry_values(after) =~= entry_values(before).insert(key, value)) by {
                        assert forall|n: Seq<char>| entry_values(after).contains_key(n) implies
                            entry_values(before).insert(key, value).contains_key(n)
                            && entry_values(after)[n] == entry_values(before).insert(
                            key,
                            value,
                        )[n] by {
                            let j = names.index_of(n);
                            assert(names[j] == n);
                            assert(entry_names(after)[j] == n);
                        }
                        assert forall|n: Seq<char>|
                            entry_values(before).insert(key, value).contains_key(n) implies
                            entry_values(after).contains_key(n) by {
                            if n != key {
                                assert(entry_values(before).contains_key(n));
                            }
                            let j = names.index_of(n);
                            assert(names[j] == n);
                            assert(entry_names(after)[j] == n);
                        }
                    }
                }
            },
            None => {
                entries.push((name, value));
                proof {
                    let after = entries@;
                    assert(after.drop_last() =~= before);
                    assert(entry_names(after) =~= names.push(key));
                    assert(!names.contains(key));
                    assert(entry_names(after).no_duplicates());
                }
            },
        }
        self.entries = entries;
        proof {
            self.lemma_consistent();
        }
    }

    /// Sets everything that `more` holds.
    pub fn insert_all(&mut self, more: ValueTable)
        ensures
            final(self)@ == old(self)@.with_all(more@),
    {
        proof {
            use_type_invariant(&more);
        }
        let mut rest: Vec<(String, TomlValue)> = more.entries;
        let ghost whole = rest@;
        let ghost mut done: int = 0;
        proof {
            reveal(Seq::filter);
            assert(whole.take(0) =~= Seq::empty());
            assert(whole.skip(0) =~= whole);
            assert(self@ =~= old(self)@.with_all(prefix_view(whole, 0)));
        }
        while rest.len() > 0
            invariant
                0 <= done <= whole.len(),
                rest@ == whole.skip(done),
                entry_names(whole).no_duplicates(),
                self@ == old(self)@.with_all(prefix_view(whole, done)),
            decreases rest@.len(),
        {
            let entry: (String, TomlValue) = rest.remove(0);
            proof {
                assert(whole.skip(done)[0] == whole[done]);
                lemma_with_all_step(old(self)@, whole, done);
                assert(rest@ =~= whole.skip(done + 1));
                done = done + 1;
            }
            self.insert(entry.0, entry.1);
        }
        proof {
            assert(whole.take(done) =~= whole);
        }
    }
}

spec fn prefix_view(entries: Seq<(String, TomlValue)>, n: int) -> TableView {
    TableView { values: entry_values(entries.take(n)), order: entry_names(entries.take(n)) }
}

proof fn lemma_with_all_step(start: TableView, entries: Seq<(String, TomlValue)>, n: int)
    requires
        0 <= n < entries.len(),
        entry_names(entries).no_duplicates(),
    ensures
        start.with_all(prefix_view(entries, n)).with(entries[n].0@, entries[n].1)
            == start.with_all(prefix_view(entries, n + 1)),
{
    let front = entries.take(n);
    let more = entries.take(n + 1);
    let name = entries[n].0@;
    assert(more.drop_last() =~= front);
    assert(entry_names(more) =~= entry_names(front).push(name));
    assert(entry_names(front).no_duplicates()) by {
        assert(entry_names(front) =~= entry_names(entries).take(n));
    }
    lemma_entry_values(front);
    assert(!entry_values(front).contains_key(name)) by {
        if entry_values(front).contains_key(name) {
            let i = entry_names(front).index_of(name);
            assert(entry_names(entries)[i] == name);
            assert(entry_names(entries)[n] == name);
        }
    }
    lemma_filter_last(entry_names(more), start.lacks());
    assert(entry_names(more).drop_last() =~= entry_names(front));
    let lhs = start.with_all(prefix_view(entries, n)).with(name, entries[n].1);
    let rhs = start.with_all(prefix_view(entries, n + 1));
    assert(lhs.values =~= rhs.values);
    assert(lhs.order =~= rhs.order);
}

} // verus!
