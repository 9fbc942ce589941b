//! A small table from texts to values.

use vstd::prelude::*;

use crate::plain::Plain;
use crate::text;

verus! {

/// Values by name. A later entry for a name hides an earlier one.
#[derive(Debug)]
pub struct Table<T> {
    pub entries: Vec<(String, T)>,
}

/// The table that a list of entries makes.
pub open spec fn table<T>(entries: Seq<(Seq<char>, T)>) -> Map<Seq<char>, T>
    decreases entries.len(),
{
    if entries.len() == 0 {
        Map::empty()
    } else {
        table(entries.drop_last()).insert(entries.last().0, entries.last().1)
    }
}

/// What a table holds under a name.
pub open spec fn lookup<T>(m: Map<Seq<char>, T>, key: Seq<char>) -> Option<T> {
    if m.contains_key(key) {
        Some(m[key])
    } else {
        None
    }
}

impl<T: DeepView> View for Table<T> {
    type V = Map<Seq<char>, T::V>;

    open spec fn view(&self) -> Map<Seq<char>, T::V> {
        table(self.entries.deep_view())
    }
}

impl<T: DeepView> DeepView for Table<T> {
    type V = Map<Seq<char>, T::V>;

    open spec fn deep_view(&self) -> Map<Seq<char>, T::V> {
        self@
    }
}

proof fn lemma_table_push<T>(entries: Seq<(Seq<char>, T)>, e: (Seq<char>, T))
    ensures
        table(entries.push(e)) == table(entries).insert(e.0, e.1),
{
    assert(entries.push(e).drop_last() =~= entries);
}

impl<T: Plain> Table<T> {
    pub fn new() -> (r: Self)
        ensures
            r@ == Map::<Seq<char>, T::V>::empty(),
    {
        let r = Table { entries: Vec::new() };
        assert(r.entries.deep_view() =~= Seq::empty());
        r
    }

    /// A copy of what the table holds under a name.
    pub fn get(&self, key: &str) -> (r: Option<T>)
        ensures
            r.deep_view() == lookup(self@, key@),
    {
        let ghost all = self.entries.deep_view();
        let mut n: usize = self.entries.len();
        assert(all.take(n as int) =~= all);
        while n > 0
            invariant
                n <= self.entries.len(),
                all == self.entries.deep_view(),
                lookup(table(all.take(n as int)), key@) == lookup(self@, key@),
            decreases n,
        {
            proof {
                assert(all.take(n as int).drop_last() =~= all.take(n - 1));
                assert(all.take(n as int).last() == all[n - 1]);
            }
            if text::same(&self.entries[n - 1].0, key) {
                return Some(self.entries[n - 1].1.copy());
            }
            n = n - 1;
        }
        None
    }

    /// Makes a value what the table holds under a name.
    pub fn insert(&mut self, key: String, value: T)
        ensures
            final(self)@ == old(self)@.insert(key@, value.deep_view()),
    {
        self.remove(key.as_str());
        let ghost before = self.entries.deep_view();
        self.entries.push((key, value));
        proof {
            assert(self.entries.deep_view() =~= before.push((key@, value.deep_view())));
            lemma_table_push(before, (key@, value.deep_view()));
            assert(self@ =~= old(self)@.insert(key@, value.deep_view()));
        }
    }

    /// Makes the table hold nothing under a name.
    pub fn remove(&mut self, key: &str)
        ensures
            final(self)@ == old(self)@.remove(key@),
    {
        let ghost all = self.entries.deep_view();
        let mut kept: Vec<(String, T)> = Vec::new();
        let mut i: usize = 0;
        assert(kept.deep_view() =~= Seq::empty());
        assert(all.take(0) =~= Seq::empty());
        assert(table(kept.deep_view()) =~= table(all.take(0)).remove(key@));
        while i < self.entries.len()
            invariant
                i <= self.entries.len(),
                all == self.entries.deep_view(),
                table(kept.deep_view()) == table(all.take(i as int)).remove(key@),
            decreases self.entries.len() - i,
        {
            let e = self.entries[i].copy();
            proof {
                assert(all.take(i + 1) =~= all.take(i as int).push(all[i as int]));
                lemma_table_push(all.take(i as int), all[i as int]);
                assert(e.deep_view() == all[i as int]);
            }
            if !text::same(&self.entries[i].0, key) {
                let ghost before = kept.deep_view();
                kept.push(e);
                proof {
                    assert(kept.deep_view() =~= before.push(e.deep_view()));
                    lemma_table_push(before, e.deep_view());
                }
            }
            assert(table(kept.deep_view()) =~= table(all.take(i + 1)).remove(key@));
            i = i + 1;
        }
        assert(all.take(i as int) =~= all);
        self.entries = kept;
    }

    /// Copies of everything that the table holds.
    pub fn values(&self) -> (r: Vec<T>)
        ensures
            forall|v: T::V| #[trigger] r.deep_view().contains(v) <==> self@.contains_value(v),
    {
        let ghost all = self.entries.deep_view();
        let mut r: Vec<T> = Vec::new();
        let mut i: usize = 0;
        assert(r.deep_view() =~= Seq::empty());
        assert(all.take(0) =~= Seq::empty());
        while i < self.entries.len()
            invariant
                i <= self.entries.len(),
                all == self.entries.deep_view(),
                forall|v: T::V| #[trigger] r.deep_view().contains(v) ==> self@.contains_value(v),
                forall|k: Seq<char>| #[trigger]
                    table(all.take(i as int)).contains_key(k) ==> self@.contains_key(k)
                        && r.deep_view().contains(self@[k]),
            decreases self.entries.len() - i,
        {
            proof {
                assert(all.take(i + 1) =~= all.take(i as int).push(all[i as int]));
                lemma_table_push(all.take(i as int), all[i as int]);
                lemma_entries_present(all, i as int);
            }
            if let Some(value) = self.get(self.entries[i].0.as_str()) {
                let ghost before = r.deep_view();
                r.push(value);
                proof {
                    let v = value.deep_view();
                    assert(r.deep_view() =~= before.push(v));
                    assert(self@.contains_value(v));
                    assert forall|w: T::V| #[trigger]
                        r.deep_view().contains(w) <==> before.contains(w) || w == v by {
                        if before.contains(w) {
                            let j = before.index_of(w);
                            assert(r.deep_view()[j] == w);
                        }
                        assert(r.deep_view()[before.len() as int] == v);
                    }
                }
            }
            i = i + 1;
        }
        assert(all.take(i as int) =~= all);
        assert forall|v: T::V| self@.contains_value(v) implies #[trigger] r.deep_view().contains(
            v,
        ) by {
            let k = choose|k: Seq<char>| self@.contains_key(k) && self@[k] == v;
            assert(table(all.take(i as int)).contains_key(k));
        }
        r
    }

    /// Whether the other table holds whatever this one does.
    fn within(&self, other: &Self) -> (r: bool)
        ensures
            r == (forall|k: Seq<char>| #[trigger]
                self@.contains_key(k) ==> lookup(other@, k) == Some(self@[k])),
    {
        let ghost all = self.entries.deep_view();
        let mut i: usize = 0;
        assert(all.take(0) =~= Seq::empty());
        while i < self.entries.len()
            invariant
                i <= self.entries.len(),
                all == self.entries.deep_view(),
                forall|k: Seq<char>| #[trigger]
                    table(all.take(i as int)).contains_key(k) ==> self@.contains_key(k) && lookup(
                        other@,
                        k,
                    ) == Some(self@[k]),
            decreases self.entries.len() - i,
        {
            let key = self.entries[i].0.as_str();
            proof {
                assert(all.take(i + 1) =~= all.take(i as int).push(all[i as int]));
                lemma_table_push(all.take(i as int), all[i as int]);
                lemma_entries_present(all, i as int);
            }
            let mine = self.get(key);
            let theirs = other.get(key);
            if !mine.same(&theirs) {
                return false;
            }
            i = i + 1;
        }
        assert(all.take(i as int) =~= all);
        true
    }
}

proof fn lemma_entries_present<T>(entries: Seq<(Seq<char>, T)>, i: int)
    requires
        0 <= i < entries.len(),
    ensures
        table(entries).contains_key(entries[i].0),
    decreases entries.len(),
{
    if i < entries.len() - 1 {
        lemma_entries_present(entries.drop_last(), i);
    }
}

impl<T: Plain> Plain for Table<T> {
    fn same(&self, other: &Self) -> (r: bool) {
        let r = self.within(other) && other.within(self);
        if r {
            assert forall|k: Seq<char>| self@.contains_key(k) == other@.contains_key(k) && (
            self@.contains_key(k) ==> #[trigger] self@[k] == other@[k]) by {
                if self@.contains_key(k) {
                    assert(lookup(other@, k) == Some(self@[k]));
                }
                if other@.contains_key(k) {
                    assert(lookup(self@, k) == Some(other@[k]));
                }
            }
            assert(self@.dom() =~= other@.dom());
            assert(self@ =~= other@);
        }
        r
    }

    fn copy(&self) -> Self {
        Table { entries: self.entries.copy() }
    }
}

} // verus!
