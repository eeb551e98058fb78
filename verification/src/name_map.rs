//! A small map from names to values that keeps its entries in the order
//! they were first added, each name once.
use vstd::prelude::*;

verus! {

/// The last position of `name` among the names, if it occurs.
pub open spec fn last_index_of<K>(names: Seq<K>, name: K) -> Option<int>
    decreases names.len(),
{
    if names.len() == 0 {
        None
    } else if names.last() == name {
        Some(names.len() - 1)
    } else {
        last_index_of(names.drop_last(), name)
    }
}

/// The plain-value form of a list of named entries.
pub open spec fn pairs_view<V: View>(v: Seq<(String, V)>) -> Seq<(Seq<char>, V::V)> {
    v.map_values(|e: (String, V)| (e.0@, e.1@))
}

/// The names of a list of entries.
pub open spec fn names_of<T>(es: Seq<(Seq<char>, T)>) -> Seq<Seq<char>> {
    es.map_values(|e: (Seq<char>, T)| e.0)
}

/// Whether no name occurs twice among the entries.
pub open spec fn names_distinct<T>(es: Seq<(Seq<char>, T)>) -> bool {
    forall|i: int, j: int| 0 <= i < j < es.len() ==> #[trigger] es[i].0 != #[trigger] es[j].0
}

/// The map that distinct entries describe.
pub open spec fn entries_map<T>(es: Seq<(Seq<char>, T)>) -> Map<Seq<char>, T>
    decreases es.len(),
{
    if es.len() == 0 {
        Map::empty()
    } else {
        entries_map(es.drop_last()).insert(es.last().0, es.last().1)
    }
}

/// The entries after setting `name` to `v`: an entry of that name gets the
/// new value in its place, otherwise the entry is added at the end.
pub open spec fn insert_entry<T>(es: Seq<(Seq<char>, T)>, name: Seq<char>, v: T) -> Seq<
    (Seq<char>, T),
> {
    match last_index_of(names_of(es), name) {
        Some(i) => es.update(i, (name, v)),
        None => es.push((name, v)),
    }
}

/// In distinct entries, adding entry `i`'s name to the entries before it
/// appends it at the end.
pub proof fn lemma_insert_new_name<T>(es: Seq<(Seq<char>, T)>, i: int)
    requires
        0 <= i < es.len(),
        names_distinct(es),
    ensures
        insert_entry(es.take(i), es[i].0, es[i].1) == es.take(i).push(es[i]),
{
    let pre = es.take(i);
    assert forall|k: int| 0 <= k < pre.len() implies pre[k].0 != es[i].0 by {
        assert(pre[k] == es[k]);
    }
    lemma_last_index_absent(pre, es[i].0);
}

/// Names mapped to values, in the order of first insertion.
#[derive(Debug)]
pub struct NameMap<V: View> {
    entries: Vec<(String, V)>,
}

impl<V: View> NameMap<V> {
    /// The entries, as plain values, in order.
    pub closed spec fn entries(&self) -> Seq<(Seq<char>, V::V)> {
        pairs_view(self.entries@)
    }

    #[verifier::type_invariant]
    spec fn inv(self) -> bool {
        names_distinct(self.entries())
    }

    /// The values, by name.
    pub open spec fn view_map(&self) -> Map<Seq<char>, V::V> {
        entries_map(self.entries())
    }

    /// No names mapped yet.
    pub fn new() -> (r: Self)
        ensures
            r.entries() == Seq::<(Seq<char>, V::V)>::empty(),
            r.view_map() == Map::<Seq<char>, V::V>::empty(),
    {
        let r = NameMap { entries: Vec::new() };
        assert(r.entries() =~= seq![]);
        r
    }

    /// The map holding these entries, whose names are distinct.
    pub fn from_distinct(entries: Vec<(String, V)>) -> (r: Self)
        requires
            names_distinct(pairs_view(entries@)),
        ensures
            r.entries() == pairs_view(entries@),
    {
        NameMap { entries }
    }

    /// The entries in order (their names are distinct).
    pub fn as_vec(&self) -> (r: &Vec<(String, V)>)
        ensures
            pairs_view(r@) == self.entries(),
            names_distinct(self.entries()),
    {
        proof {
            use_type_invariant(self);
        }
        &self.entries
    }

    /// How many names are mapped.
    pub fn len(&self) -> (r: usize)
        ensures
            r == self.entries().len(),
            r == self.view_map().len(),
    {
        proof {
            use_type_invariant(self);
            lemma_entries_map_len(self.entries());
        }
        self.entries.len()
    }

    /// The value mapped to `name`, if there is one.
    pub fn get(&self, name: &String) -> (r: Option<&V>)
        ensures
            match r {
                Some(v) => self.view_map().contains_key(name@) && self.view_map()[name@] == v@,
                None => !self.view_map().contains_key(name@),
            },
    {
        proof {
            use_type_invariant(self);
        }
        let mut i: usize = 0;
        while i < self.entries.len()
            invariant
                i <= self.entries@.len(),
                names_distinct(self.entries()),
                forall|k: int| 0 <= k < i ==> self.entries()[k].0 != name@,
            decreases self.entries@.len() - i,
        {
            if self.entries[i].0.eq(name) {
                proof {
                    assert(self.entries()[i as int].0 == name@);
                    lemma_entries_map_at(self.entries(), i as int);
                }
                return Some(&self.entries[i].1);
            }
            i = i + 1;
        }
        proof {
            lemma_entries_map_absent(self.entries(), name@);
        }
        None
    }

    /// Maps `name` to `value`, replacing any value it had.
    pub fn insert(&mut self, name: String, value: V)
        ensures
            final(self).entries() == insert_entry(old(self).entries(), name@, value@),
            final(self).view_map() == old(self).view_map().insert(name@, value@),
    {
        proof {
            use_type_invariant(&*self);
        }
        let ghost es = self.entries();
        let ghost nm = name@;
        let ghost val = value@;
        let mut i: usize = 0;
        while i < self.entries.len()
            invariant
                i <= self.entries@.len(),
                es == self.entries(),
                es == old(self).entries(),
                names_distinct(es),
                nm == name@,
                val == value@,
                forall|k: int| 0 <= k < i ==> es[k].0 != name@,
            decreases self.entries@.len() - i,
        {
            if self.entries[i].0.eq(&name) {
                let mut entries: Vec<(String, V)> = Vec::new();
                std::mem::swap(&mut entries, &mut self.entries);
                entries.set(i, (name, value));
                proof {
                    assert(es[i as int].0 == nm);
                    assert(pairs_view(entries@) =~= es.update(i as int, (nm, val)));
                    lemma_entries_map_update(es, i as int, val);
                    lemma_last_index_distinct(es, i as int);
                }
                self.entries = entries;
                proof {
                    assert(self.entries() =~= es.update(i as int, (nm, val)));
                    assert(es.update(i as int, (nm, val)) == es.update(i as int, (es[i as int].0, val)));
                }
                return;
            }
            i = i + 1;
        }
        let mut entries: Vec<(String, V)> = Vec::new();
        std::mem::swap(&mut entries, &mut self.entries);
        entries.push((name, value));
        proof {
            assert(pairs_view(entries@) =~= es.push((nm, val)));
            assert(es.push((nm, val)).drop_last() =~= es);
            lemma_last_index_absent(es, nm);
            assert(names_distinct(es.push((nm, val))));
        }
        self.entries = entries;
        proof {
            assert(self.entries() =~= es.push((nm, val)));
        }
    }
}

proof fn lemma_distinct_init<T>(es: Seq<(Seq<char>, T)>)
    requires
        es.len() > 0,
        names_distinct(es),
    ensures
        names_distinct(es.drop_last()),
{
    let init = es.drop_last();
    assert forall|a: int, b: int| 0 <= a < b < init.len() implies #[trigger] init[a].0
        != #[trigger] init[b].0 by {
        assert(init[a] == es[a] && init[b] == es[b]);
    }
}

/// Distinct entries describe a finite map with one key per entry.
proof fn lemma_entries_map_len<T>(es: Seq<(Seq<char>, T)>)
    requires
        names_distinct(es),
    ensures
        entries_map(es).dom().finite(),
        entries_map(es).len() == es.len(),
    decreases es.len(),
{
    if es.len() == 0 {
        assert(entries_map(es).dom() =~= Set::<Seq<char>>::empty());
    } else {
        let init = es.drop_last();
        lemma_distinct_init(es);
        lemma_entries_map_len(init);
        assert forall|k: int| 0 <= k < init.len() implies init[k].0 != es.last().0 by {
            assert(init[k] == es[k]);
        }
        lemma_entries_map_absent(init, es.last().0);
    }
}

proof fn lemma_entries_map_at<T>(es: Seq<(Seq<char>, T)>, i: int)
    requires
        0 <= i < es.len(),
        names_distinct(es),
    ensures
        entries_map(es).contains_key(es[i].0),
        entries_map(es)[es[i].0] == es[i].1,
    decreases es.len(),
{
    if i < es.len() - 1 {
        let init = es.drop_last();
        lemma_distinct_init(es);
        assert(init[i] == es[i]);
        lemma_entries_map_at(init, i);
        assert(es[i].0 != es[es.len() - 1].0);
    }
}

proof fn lemma_entries_map_absent<T>(es: Seq<(Seq<char>, T)>, name: Seq<char>)
    requires
        forall|k: int| 0 <= k < es.len() ==> es[k].0 != name,
    ensures
        !entries_map(es).contains_key(name),
    decreases es.len(),
{
    if es.len() > 0 {
        let init = es.drop_last();
        assert forall|k: int| 0 <= k < init.len() implies init[k].0 != name by {
            assert(init[k] == es[k]);
        }
        lemma_entries_map_absent(init, name);
    }
}

proof fn lemma_entries_map_update<T>(es: Seq<(Seq<char>, T)>, i: int, v: T)
    requires
        0 <= i < es.len(),
        names_distinct(es),
    ensures
        entries_map(es.update(i, (es[i].0, v))) == entries_map(es).insert(es[i].0, v),
        names_distinct(es.update(i, (es[i].0, v))),
    decreases es.len(),
{
    let es2 = es.update(i, (es[i].0, v));
    assert(names_distinct(es2)) by {
        assert forall|a: int, b: int| 0 <= a < b < es2.len() implies #[trigger] es2[a].0
            != #[trigger] es2[b].0 by {
            assert(es2[a].0 == es[a].0 && es2[b].0 == es[b].0);
        }
    }
    let init = es.drop_last();
    lemma_distinct_init(es);
    if i == es.len() - 1 {
        assert(es2.drop_last() =~= init);
        assert(entries_map(es2) =~= entries_map(es).insert(es[i].0, v));
    } else {
        assert(init[i] == es[i]);
        lemma_entries_map_update(init, i, v);
        assert(es2.drop_last() =~= init.update(i, (es[i].0, v)));
        assert(es[i].0 != es.last().0);
        assert(entries_map(es2) =~= entries_map(es).insert(es[i].0, v));
    }
}

/// In distinct entries, the last (and only) position of entry `i`'s name is `i`.
proof fn lemma_last_index_distinct<T>(es: Seq<(Seq<char>, T)>, i: int)
    requires
        0 <= i < es.len(),
        names_distinct(es),
    ensures
        last_index_of(names_of(es), es[i].0) == Some(i),
    decreases es.len(),
{
    let ns = names_of(es);
    assert(ns.last() == es.last().0);
    if i < es.len() - 1 {
        lemma_distinct_init(es);
        assert(ns.drop_last() =~= names_of(es.drop_last()));
        assert(es.drop_last()[i] == es[i]);
        assert(es[i].0 != es.last().0);
        lemma_last_index_distinct(es.drop_last(), i);
    }
}

/// A name that no entry has has no position.
proof fn lemma_last_index_absent<T>(es: Seq<(Seq<char>, T)>, name: Seq<char>)
    requires
        forall|k: int| 0 <= k < es.len() ==> es[k].0 != name,
    ensures
        last_index_of(names_of(es), name) is None,
    decreases es.len(),
{
    if es.len() > 0 {
        let ns = names_of(es);
        assert(ns.last() == es.last().0);
        assert(ns.drop_last() =~= names_of(es.drop_last()));
        assert forall|k: int| 0 <= k < es.drop_last().len() implies es.drop_last()[k].0 != name by {
            assert(es.drop_last()[k] == es[k]);
        }
        lemma_last_index_absent(es.drop_last(), name);
    }
}

} // verus!
