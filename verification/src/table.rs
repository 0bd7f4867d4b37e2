//! Tables: values filed under text keys.

use vstd::prelude::*;

verus! {

/// Values filed under text keys, at most one under each.
#[derive(Debug)]
pub struct Table<T> {
    pub(crate) entries: Vec<(String, T)>,
}

/// No two entries share a key.
pub open spec fn distinct_keys<T>(entries: Seq<(String, T)>) -> bool {
    forall|i: int, j: int|
        0 <= i < j < entries.len() ==> (#[trigger] entries[i]).0@ != (#[trigger] entries[j]).0@
}

/// Whether some entry has this key.
pub open spec fn has_key<T>(entries: Seq<(String, T)>, key: Seq<char>) -> bool {
    exists|i: int| 0 <= i < entries.len() && (#[trigger] entries[i]).0@ == key
}

/// Where an entry with this key stands.
pub open spec fn place<T>(entries: Seq<(String, T)>, key: Seq<char>) -> int {
    choose|i: int| 0 <= i < entries.len() && (#[trigger] entries[i]).0@ == key
}

/// What the entries file under each key.
pub open spec fn filed<T>(entries: Seq<(String, T)>) -> Map<Seq<char>, T> {
    Map::new(|k: Seq<char>| has_key(entries, k), |k: Seq<char>| entries[place(entries, k)].1)
}

/// Entries with the same keys in the same places file values under the same
/// keys, and find them in the same places.
pub(crate) proof fn aligned_entries<A, B>(a: Seq<(String, A)>, b: Seq<(String, B)>)
    requires
        distinct_keys(a),
        a.len() == b.len(),
        forall|i: int| 0 <= i < a.len() ==> (#[trigger] a[i]).0@ == b[i].0@,
    ensures
        distinct_keys(b),
        forall|k: Seq<char>| #[trigger] has_key(a, k) == has_key(b, k),
        forall|k: Seq<char>|
            has_key(a, k) ==> #[trigger] place(a, k) == place(b, k) && 0 <= place(a, k) < a.len()
                && a[place(a, k)].0@ == k,
{
    assert forall|i: int, j: int| 0 <= i < j < b.len() implies (#[trigger] b[i]).0@ != (
    #[trigger] b[j]).0@ by {
        assert(a[i].0@ != a[j].0@);
    }
    assert forall|k: Seq<char>| #[trigger] has_key(a, k) == has_key(b, k) by {
        if has_key(a, k) {
            assert(b[place(a, k)].0@ == k);
        }
        if has_key(b, k) {
            assert(a[place(b, k)].0@ == k);
        }
    }
    assert forall|k: Seq<char>| has_key(a, k) implies #[trigger] place(a, k) == place(b, k) && 0
        <= place(a, k) < a.len() && a[place(a, k)].0@ == k by {
        assert(has_key(a, k) == has_key(b, k));
        let i = place(a, k);
        let j = place(b, k);
        assert(a[i].0@ == k && b[j].0@ == k && a[j].0@ == k);
    }
}

/// One entry more, with a key of its own, is filed on top of those before it.
proof fn filed_one_more<T>(entries: Seq<(String, T)>, n: int)
    requires
        distinct_keys(entries),
        0 <= n < entries.len(),
    ensures
        filed(entries.take(n + 1)) == filed(entries.take(n)).insert(
            entries[n].0@,
            entries[n].1,
        ),
{
    let some = entries.take(n);
    let more = entries.take(n + 1);
    assert(more[n].0@ == entries[n].0@);
    assert forall|k: Seq<char>| has_key(more, k) implies k == entries[n].0@ || has_key(
        some,
        k,
    ) by {
        let i = place(more, k);
        if i < n {
            assert(some[i].0@ == k);
        }
    }
    assert forall|k: Seq<char>| has_key(some, k) implies has_key(more, k) && place(more, k)
        == place(some, k) by {
        let i = place(some, k);
        assert(more[i].0@ == k);
        let j = place(more, k);
        assert(entries[i].0@ == k && entries[j].0@ == k);
    }
    let j = place(more, entries[n].0@);
    assert(entries[j].0@ == entries[n].0@);
    assert(filed(more) =~= filed(some).insert(entries[n].0@, entries[n].1)) by {
        assert forall|k: Seq<char>| has_key(some, k) && k != entries[n].0@ implies filed(more)[k]
            == filed(some)[k] by {
            let i = place(some, k);
            assert(more[i] == some[i]);
        }
    }
}

impl<T> View for Table<T> {
    type V = Map<Seq<char>, T>;

    /// What is filed under each key.
    closed spec fn view(&self) -> Map<Seq<char>, T> {
        filed(self.entries@)
    }
}

impl<T> Table<T> {
    #[verifier::type_invariant]
    pub(crate) open spec fn well_formed(self) -> bool {
        distinct_keys(self.entries@)
    }

    /// What a table shows of the entries it holds.
    pub(crate) proof fn shows_entries(self)
        ensures
            self@ == filed(self.entries@),
    {
    }

    /// A table with nothing in it.
    pub fn new() -> (t: Self)
        ensures
            t@ == Map::<Seq<char>, T>::empty(),
    {
        let t = Table { entries: Vec::new() };
        assert(t@ =~= Map::<Seq<char>, T>::empty());
        t
    }

    /// A table that holds these entries.
    pub(crate) fn of_entries(entries: Vec<(String, T)>) -> (t: Self)
        requires
            distinct_keys(entries@),
        ensures
            t.entries@ == entries@,
            t@ == filed(entries@),
    {
        Table { entries }
    }

    /// Where the entry with this key stands, if there is one.
    fn find(&self, key: &str) -> (r: Option<usize>)
        ensures
            match r {
                Some(i) => i < self.entries@.len() && self.entries@[i as int].0@ == key@,
                None => !has_key(self.entries@, key@),
            },
    {
        let wanted = key.to_owned();
        let mut i: usize = 0;
        while i < self.entries.len()
            invariant
                i <= self.entries.len(),
                wanted@ == key@,
                forall|j: int| 0 <= j < i ==> (#[trigger] self.entries@[j]).0@ != key@,
            decreases self.entries.len() - i,
        {
            if self.entries[i].0.eq(&wanted) {
                return Some(i);
            }
            i += 1;
        }
        None
    }

    /// What is filed under this key.
    pub fn get(&self, key: &str) -> (r: Option<&T>)
        ensures
            match r {
                Some(value) => self@.contains_key(key@) && self@[key@] == *value,
                None => !self@.contains_key(key@),
            },
    {
        proof {
            use_type_invariant(self);
        }
        match self.find(key) {
            Some(i) => {
                assert(self.entries@[place(self.entries@, key@)].0@ == key@);
                assert(place(self.entries@, key@) == i);
                Some(&self.entries[i].1)
            },
            None => None,
        }
    }

    /// File a value under a key, in place of what was there.
    pub fn insert(&mut self, key: String, value: T)
        ensures
            final(self)@ == old(self)@.insert(key@, value),
    {
        proof {
            use_type_invariant(&*self);
        }
        let found = self.find(key.as_str());
        let ghost before = self.entries@;
        let ghost k = key@;
        let mut entries: Vec<(String, T)> = Vec::new();
        std::mem::swap(&mut entries, &mut self.entries);
        match found {
            Some(i) => {
                entries.set(i, (key, value));
            },
            None => {
                entries.push((key, value));
            },
        }
        self.entries = entries;
        proof {
            let after = self.entries@;
            let at = if found is Some { found->0 as int } else { before.len() as int };
            assert(after[at].0@ == k);
            assert forall|other: Seq<char>| has_key(after, other) implies other == k || has_key(
                before,
                other,
            ) by {
                let i = place(after, other);
                if i != at {
                    assert(before[i].0@ == other);
                }
            }
            assert forall|other: Seq<char>| has_key(before, other) implies has_key(
                after,
                other,
            ) by {
                let i = place(before, other);
                assert(after[i].0@ == other);
            }
            assert(filed(after) =~= filed(before).insert(k, value)) by {
                assert forall|other: Seq<char>| has_key(after, other) && other != k implies filed(
                    after,
                )[other] == filed(before)[other] by {
                    let i = place(after, other);
                    let j = place(before, other);
                    assert(after[i].0@ == other);
                    assert(before[j].0@ == other);
                    assert(before[i].0@ == other);
                }
                let i = place(after, k);
                assert(after[i].0@ == k);
            }
        }
    }

    /// The entries, each key once.
    pub fn entries(&self) -> (r: &Vec<(String, T)>)
        ensures
            distinct_keys(r@),
            self@ == filed(r@),
    {
        proof {
            use_type_invariant(self);
        }
        &self.entries
    }
}

impl Table<String> {
    /// The text filed under each key.
    pub open spec fn texts(self) -> Map<Seq<char>, Seq<char>> {
        self@.map_values(|s: String| s@)
    }

    /// File a text under a key, in place of what was there.
    pub fn set(&mut self, key: &str, text: &str)
        ensures
            final(self).texts() == old(self).texts().insert(key@, text@),
    {
        let ghost before = self@;
        self.insert(key.to_owned(), text.to_owned());
        assert(self.texts() =~= before.map_values(|s: String| s@).insert(key@, text@));
    }

    /// The text filed under a key.
    pub fn text_at(&self, key: &str) -> (r: Option<&str>)
        ensures
            match r {
                Some(text) => self.texts().contains_key(key@) && self.texts()[key@] == text@,
                None => !self.texts().contains_key(key@),
            },
    {
        match self.get(key) {
            Some(text) => Some(text.as_str()),
            None => None,
        }
    }

    /// File all the texts of another table, in place of what was there.
    pub fn overlay(&mut self, over: &Table<String>)
        ensures
            final(self).texts() == old(self).texts().union_prefer_right(over.texts()),
    {
        proof {
            use_type_invariant(over);
        }
        let ghost before = self.texts();
        let ghost entries = over.entries@;
        let mut i: usize = 0;
        assert(entries.take(0) =~= Seq::<(String, String)>::empty());
        assert(self.texts() =~= before.union_prefer_right(
            filed(entries.take(0)).map_values(|s: String| s@),
        ));
        while i < over.entries.len()
            invariant
                i <= over.entries.len(),
                entries == over.entries@,
                distinct_keys(entries),
                self.texts() == before.union_prefer_right(
                    filed(entries.take(i as int)).map_values(|s: String| s@),
                ),
            decreases over.entries.len() - i,
        {
            proof {
                filed_one_more(entries, i as int);
            }
            let ghost some = filed(entries.take(i as int));
            let ghost more = filed(entries.take(i + 1));
            self.set(over.entries[i].0.as_str(), over.entries[i].1.as_str());
            assert(more.map_values(|s: String| s@) =~= some.map_values(|s: String| s@).insert(
                entries[i as int].0@,
                entries[i as int].1@,
            ));
            assert(self.texts() =~= before.union_prefer_right(more.map_values(|s: String| s@)));
            i += 1;
        }
        assert(entries.take(entries.len() as int) =~= entries);
    }
}

} // verus!
