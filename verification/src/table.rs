//! Tables keyed by name, kept as a list in which a later entry for a name
//! replaces an earlier one.

use vstd::prelude::*;

verus! {

/// A map from names to values.
pub struct Table<V> {
    pub entries: Vec<(String, V)>,
}

/// The map that a list of entries stands for: each entry is inserted in
/// turn, so the last entry for a name is the one that counts.
pub open spec fn table_map<T>(entries: Seq<(Seq<char>, T)>) -> Map<Seq<char>, T>
    decreases entries.len(),
{
    if entries.len() == 0 {
        Map::empty()
    } else {
        table_map(entries.drop_last()).insert(entries.last().0, entries.last().1)
    }
}

impl<V: DeepView> DeepView for Table<V> {
    type V = Map<Seq<char>, V::V>;

    open spec fn deep_view(&self) -> Map<Seq<char>, V::V> {
        table_map(self.entries.deep_view())
    }
}

/// A name that no entry from `from` on carries maps to what the entries
/// before `from` give it.
pub proof fn lemma_table_map_skips<T>(entries: Seq<(Seq<char>, T)>, from: int, name: Seq<char>)
    requires
        0 <= from <= entries.len(),
        forall|j: int| from <= j < entries.len() ==> entries[j].0 != name,
    ensures
        table_map(entries).contains_key(name) == table_map(entries.take(from)).contains_key(name),
        table_map(entries).contains_key(name) ==> table_map(entries)[name] == table_map(
            entries.take(from),
        )[name],
    decreases entries.len() - from,
{
    if from == entries.len() {
        assert(entries.take(from) == entries);
    } else {
        let shorter = entries.drop_last();
        assert(shorter.take(from) == entries.take(from));
        lemma_table_map_skips(shorter, from, name);
    }
}

/// The value of `name` in `map`, where it has one.
pub open spec fn lookup<T>(map: Map<Seq<char>, T>, name: Seq<char>) -> Option<T> {
    if map.contains_key(name) {
        Some(map[name])
    } else {
        None
    }
}

/// `first` overlaid with `second`: a name has the value that `second`
/// gives it, and otherwise the one that `first` gives it.
pub open spec fn overlaid<T>(first: Map<Seq<char>, T>, second: Map<Seq<char>, T>) -> Map<
    Seq<char>,
    T,
> {
    Map::new(
        |name: Seq<char>| first.contains_key(name) || second.contains_key(name),
        |name: Seq<char>|
            if second.contains_key(name) {
                second[name]
            } else {
                first[name]
            },
    )
}

/// `map` with each value replaced by what `f` makes of its name and value.
pub open spec fn remade<T, U>(map: Map<Seq<char>, T>, f: spec_fn(Seq<char>, T) -> U) -> Map<
    Seq<char>,
    U,
> {
    Map::new(|name: Seq<char>| map.contains_key(name), |name: Seq<char>| f(name, map[name]))
}

/// One entry remade by `f`.
pub open spec fn remade_entry<T, U>(entry: (Seq<char>, T), f: spec_fn(Seq<char>, T) -> U) -> (
    Seq<char>,
    U,
) {
    (entry.0, f(entry.0, entry.1))
}

/// Entries listed one after the other stand for the first list's map
/// overlaid with the second's.
pub proof fn lemma_table_map_concat<T>(first: Seq<(Seq<char>, T)>, second: Seq<(Seq<char>, T)>)
    ensures
        table_map(first + second) == overlaid(table_map(first), table_map(second)),
    decreases second.len(),
{
    if second.len() == 0 {
        assert(first + second == first);
        assert(table_map(first) =~= overlaid(table_map(first), table_map(second)));
    } else {
        assert((first + second).drop_last() == first + second.drop_last());
        lemma_table_map_concat(first, second.drop_last());
        assert(table_map(first + second) =~= overlaid(table_map(first), table_map(second)));
    }
}

/// Remaking each entry of a list remakes the map it stands for.
pub proof fn lemma_table_map_remade<T, U>(
    entries: Seq<(Seq<char>, T)>,
    made: Seq<(Seq<char>, U)>,
    f: spec_fn(Seq<char>, T) -> U,
)
    requires
        made.len() == entries.len(),
        forall|i: int| 0 <= i < entries.len() ==> made[i] == remade_entry(#[trigger] entries[i], f),
    ensures
        table_map(made) == remade(table_map(entries), f),
    decreases entries.len(),
{
    if entries.len() == 0 {
        assert(table_map(made) =~= remade(table_map(entries), f));
    } else {
        lemma_table_map_remade(entries.drop_last(), made.drop_last(), f);
        assert(made.last() == remade_entry(entries.last(), f));
        assert(table_map(made) =~= remade(table_map(entries), f));
    }
}

impl<V: DeepView> Table<V> {
    /// The empty table.
    pub fn new() -> (table: Table<V>)
        ensures
            table.deep_view() == Map::<Seq<char>, V::V>::empty(),
            table.entries@.len() == 0,
    {
        let table = Table { entries: Vec::new() };
        assert(table.entries.deep_view() =~= Seq::empty());
        table
    }

    /// Sets the value of `name`, in place of any value it had.
    pub fn insert(&mut self, name: String, value: V)
        ensures
            final(self).deep_view() == old(self).deep_view().insert(name@, value.deep_view()),
            final(self).entries@ == old(self).entries@.push((name, value)),
    {
        self.entries.push((name, value));
        assert(self.entries.deep_view().drop_last() =~= old(self).entries.deep_view());
    }

    /// The value of `name`, where it has one.
    pub fn get(&self, name: &str) -> (value: Option<&V>)
        ensures
            value.deep_view() == lookup(self.deep_view(), name@),
    {
        let wanted = name.to_owned();
        let ghost views = self.entries.deep_view();
        let mut i: usize = self.entries.len();
        while i > 0
            invariant
                i <= self.entries.len(),
                views == self.entries.deep_view(),
                wanted@ == name@,
                forall|j: int| i <= j < views.len() ==> views[j].0 != name@,
            decreases i,
        {
            i -= 1;
            assert(views[i as int] == self.entries@[i as int].deep_view());
            if self.entries[i].0 == wanted {
                proof {
                    lemma_table_map_skips(views, i + 1, name@);
                    assert(views.take(i + 1).drop_last() == views.take(i as int));
                }
                return Some(&self.entries[i].1);
            }
        }
        proof {
            lemma_table_map_skips(views, 0, name@);
        }
        None
    }

    /// Whether `name` has a value.
    pub fn contains(&self, name: &str) -> (found: bool)
        ensures
            found == self.deep_view().contains_key(name@),
    {
        self.get(name).is_some()
    }
}

} // verus!
