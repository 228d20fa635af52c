//! A table from text keys to values, kept as a list in which no key occurs
//! twice.
use vstd::prelude::*;

verus! {

/// No key occurs twice in the list.
pub open spec fn keys_distinct<V>(entries: Seq<(String, V)>) -> bool {
    forall|i: int, j: int|
        0 <= i < j < entries.len() ==> (#[trigger] entries[i]).0@ != (#[trigger] entries[j]).0@
}

/// The list holds an entry for `key`.
pub open spec fn lists<V>(entries: Seq<(String, V)>, key: Seq<char>) -> bool {
    exists|i: int| 0 <= i < entries.len() && (#[trigger] entries[i]).0@ == key
}

/// The table that comes of entering the list from its beginning: of two entries
/// for one key, the later stays.
pub open spec fn entered<V: DeepView>(entries: Seq<(String, V)>) -> Map<Seq<char>, V::V>
    decreases entries.len(),
{
    if entries.len() == 0 {
        Map::empty()
    } else {
        entered(entries.drop_last()).insert(entries.last().0@, entries.last().1.deep_view())
    }
}

/// Values by text key.
pub struct Table<V> {
    entries: Vec<(String, V)>,
}

impl<V: DeepView> View for Table<V> {
    type V = Map<Seq<char>, V::V>;

    closed spec fn view(&self) -> Map<Seq<char>, V::V> {
        entered(self.entries@)
    }
}

proof fn lemma_entered<V: DeepView>(entries: Seq<(String, V)>)
    requires
        keys_distinct(entries),
    ensures
        forall|i: int|
            0 <= i < entries.len() ==> {
                &&& entered(entries).contains_key((#[trigger] entries[i]).0@)
                &&& entered(entries)[entries[i].0@] == entries[i].1.deep_view()
            },
        forall|key: Seq<char>| #[trigger]
            entered(entries).contains_key(key) <==> lists(entries, key),
    decreases entries.len(),
{
    if entries.len() > 0 {
        let rest = entries.drop_last();
        lemma_entered(rest);
        assert forall|i: int| 0 <= i < entries.len() implies {
            &&& entered(entries).contains_key((#[trigger] entries[i]).0@)
            &&& entered(entries)[entries[i].0@] == entries[i].1.deep_view()
        } by {
            if i < rest.len() {
                assert(rest[i] == entries[i]);
                assert(entries[i].0@ != entries[entries.len() - 1].0@);
            }
        }
        assert forall|key: Seq<char>| #[trigger]
            entered(entries).contains_key(key) <==> lists(entries, key) by {
            assert(entered(rest).contains_key(key) <==> lists(rest, key));
            if lists(rest, key) {
                let i = choose|i: int| 0 <= i < rest.len() && (#[trigger] rest[i]).0@ == key;
                assert(entries[i].0@ == key);
            }
            if lists(entries, key) {
                let i = choose|i: int|
                    0 <= i < entries.len() && (#[trigger] entries[i]).0@ == key;
                if i < rest.len() {
                    assert(rest[i].0@ == key);
                }
            }
            if key == entries.last().0@ {
                assert(entries[entries.len() - 1].0@ == key);
            }
        }
    }
}

proof fn lemma_entered_update<V: DeepView>(entries: Seq<(String, V)>, i: int, value: V)
    requires
        keys_distinct(entries),
        0 <= i < entries.len(),
    ensures
        keys_distinct(entries.update(i, (entries[i].0, value))),
        entered(entries.update(i, (entries[i].0, value))) == entered(entries).insert(
            entries[i].0@,
            value.deep_view(),
        ),
{
    let after = entries.update(i, (entries[i].0, value));
    lemma_entered(entries);
    lemma_entered(after);
    assert forall|key: Seq<char>| lists(after, key) <==> lists(entries, key) by {
        if lists(after, key) {
            let k = choose|k: int| 0 <= k < after.len() && (#[trigger] after[k]).0@ == key;
            assert(entries[k].0@ == key);
        }
        if lists(entries, key) {
            let k = choose|k: int| 0 <= k < entries.len() && (#[trigger] entries[k]).0@ == key;
            assert(after[k].0@ == key);
        }
    }
    assert(after[i].0@ == entries[i].0@);
    assert forall|key: Seq<char>| #[trigger] entered(after).contains_key(key) implies entered(
        after,
    )[key] == entered(entries).insert(entries[i].0@, value.deep_view())[key] by {
        let k = choose|k: int| 0 <= k < after.len() && (#[trigger] after[k]).0@ == key;
        assert(entries[k].0@ == key);
        if k != i {
            assert(after[k] == entries[k]);
        }
    }
    assert(entered(after) =~= entered(entries).insert(entries[i].0@, value.deep_view()));
}

impl<V: DeepView> Table<V> {
    /// No key occurs twice.
    pub closed spec fn wf(self) -> bool {
        keys_distinct(self.entries@)
    }

    /// An empty table.
    pub fn new() -> (r: Self)
        ensures
            r.wf(),
            r@ == Map::<Seq<char>, V::V>::empty(),
    {
        Table { entries: Vec::new() }
    }

    /// The list of the table.
    pub fn entries(&self) -> (r: &Vec<(String, V)>)
        requires
            self.wf(),
        ensures
            keys_distinct(r@),
            self@ == entered(r@),
    {
        &self.entries
    }

    fn find(&self, key: &str) -> (r: Option<usize>)
        requires
            self.wf(),
        ensures
            match r {
                Some(i) => i < self.entries@.len() && self.entries@[i as int].0@ == key@
                    && self@.contains_key(key@) && self@[key@]
                    == self.entries@[i as int].1.deep_view(),
                None => !self@.contains_key(key@) && !lists(self.entries@, key@),
            },
    {
        let wanted = key.to_owned();
        let mut i: usize = 0;
        while i < self.entries.len()
            invariant
                self.wf(),
                wanted@ == key@,
                forall|k: int| 0 <= k < i ==> (#[trigger] self.entries@[k]).0@ != key@,
            decreases self.entries@.len() - i,
        {
            if self.entries[i].0 == wanted {
                proof {
                    lemma_entered(self.entries@);
                }
                return Some(i);
            }
            i += 1;
        }
        proof {
            lemma_entered(self.entries@);
        }
        None
    }

    /// The value for `key`.
    pub fn get(&self, key: &str) -> (r: Option<&V>)
        requires
            self.wf(),
        ensures
            match r {
                Some(v) => self@.contains_key(key@) && v.deep_view() == self@[key@],
                None => !self@.contains_key(key@),
            },
    {
        match self.find(key) {
            Some(i) => Some(&self.entries[i].1),
            None => None,
        }
    }

    /// The value for `key`, to be changed in place.
    pub fn get_mut(&mut self, key: &str) -> (r: Option<&mut V>)
        requires
            old(self).wf(),
        ensures
            final(self).wf(),
            match r {
                Some(v) => {
                    &&& old(self)@.contains_key(key@)
                    &&& v.deep_view() == old(self)@[key@]
                    &&& final(self)@ == old(self)@.insert(key@, final(v).deep_view())
                },
                None => !old(self)@.contains_key(key@) && final(self)@ == old(self)@,
            },
    {
        match self.find(key) {
            Some(i) => {
                let ghost before = self.entries@;
                let v = &mut self.entries[i].1;
                proof {
                    lemma_entered_update(before, i as int, *final(v));
                }
                Some(v)
            },
            None => None,
        }
    }

    /// Makes `value` the value for `key`.
    pub fn insert(&mut self, key: String, value: V)
        requires
            old(self).wf(),
        ensures
            final(self).wf(),
            final(self)@ == old(self)@.insert(key@, value.deep_view()),
    {
        match self.find(key.as_str()) {
            Some(i) => {
                proof {
                    lemma_entered_update(self.entries@, i as int, value);
                }
                self.entries[i].1 = value;
            },
            None => {
                let ghost before = self.entries@;
                self.entries.push((key, value));
                proof {
                    assert(self.entries@.drop_last() == before);
                    assert forall|i: int, j: int| 0 <= i < j < self.entries@.len() implies (
                    #[trigger] self.entries@[i]).0@ != (#[trigger] self.entries@[j]).0@ by {
                        if j == before.len() {
                            assert(before[i].0@ != key@);
                        }
                    }
                }
            },
        }
    }

    /// The table that comes of entering a list from its beginning.
    pub fn from_entries(list: Vec<(String, V)>) -> (r: Self)
        ensures
            r.wf(),
            r@ == entered(list@),
    {
        let mut r = Table::new();
        for entry in it: list
            invariant
                r.wf(),
                it.seq() == list@,
                r@ == entered(it.seq().take(it.index() as int)),
        {
            let ghost n = it.index() as int;
            assert(it.seq().take(n + 1).drop_last() == it.seq().take(n));
            r.insert(entry.0, entry.1);
        }
        assert(list@.take(list@.len() as int) == list@);
        r
    }
}

/// The table of a list has the keys of the list and no others, and for each the
/// value that was entered last.
pub proof fn law_last_entry_stays<V: DeepView>(entries: Seq<(String, V)>, i: int, key: Seq<char>)
    requires
        0 <= i < entries.len(),
        forall|j: int| i < j < entries.len() ==> (#[trigger] entries[j]).0@ != entries[i].0@,
    ensures
        entered(entries).contains_key(entries[i].0@),
        entered(entries)[entries[i].0@] == entries[i].1.deep_view(),
        entered(entries).contains_key(key) ==> lists(entries, key),
        !entered(Seq::<(String, V)>::empty()).contains_key(key),
    decreases entries.len(),
{
    let rest = entries.drop_last();
    lemma_keys_listed(entries, key);
    if i < rest.len() {
        assert(entries[entries.len() - 1].0@ != entries[i].0@);
        assert forall|j: int| i < j < rest.len() implies (#[trigger] rest[j]).0@ != rest[i].0@ by {
            assert(entries[j].0@ != entries[i].0@);
        }
        law_last_entry_stays(rest, i, key);
    }
}

proof fn lemma_keys_listed<V: DeepView>(entries: Seq<(String, V)>, key: Seq<char>)
    ensures
        entered(entries).contains_key(key) ==> lists(entries, key),
    decreases entries.len(),
{
    if entries.len() > 0 {
        let rest = entries.drop_last();
        lemma_keys_listed(rest, key);
        if lists(rest, key) {
            let i = choose|i: int| 0 <= i < rest.len() && (#[trigger] rest[i]).0@ == key;
            assert(entries[i].0@ == key);
        }
        if entered(entries).contains_key(key) && !lists(rest, key) {
            assert(entries[entries.len() - 1].0@ == key);
        }
    }
}

} // verus!
