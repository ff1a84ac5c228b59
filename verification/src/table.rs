//! Values under names: a table that is searched by hashing, and a small one that
//! keeps the names in order.
use vstd::hash_map::StringHashMap;
use vstd::prelude::*;

verus! {

/// What `entries` hold under each name; of two entries under one name, the later.
pub open spec fn entries_map<V>(entries: Seq<(String, V)>) -> Map<Seq<char>, V>
    decreases entries.len(),
{
    if entries.len() == 0 {
        Map::empty()
    } else {
        entries_map(entries.drop_last()).insert(entries.last().0@, entries.last().1)
    }
}

/// No two entries stand under one name.
pub open spec fn distinct_names<V>(entries: Seq<(String, V)>) -> bool {
    forall|i: int, j: int|
        0 <= i < j < entries.len() ==> (#[trigger] entries[i]).0@ != (#[trigger] entries[j]).0@
}

/// A few values under names, in the order in which the names came. Names are
/// searched for one after the other.
#[derive(Debug)]
pub struct Fields<V> {
    entries: Vec<(String, V)>,
}

impl<V> View for Fields<V> {
    type V = Map<Seq<char>, V>;

    closed spec fn view(&self) -> Map<Seq<char>, V> {
        entries_map(self.entries@)
    }
}

/// An entry's name is in the map, with its value.
pub(crate) proof fn lemma_entry_in_map<V>(entries: Seq<(String, V)>, i: int)
    requires
        distinct_names(entries),
        0 <= i < entries.len(),
    ensures
        entries_map(entries).contains_key(entries[i].0@),
        entries_map(entries)[entries[i].0@] == entries[i].1,
    decreases entries.len(),
{
    if i < entries.len() - 1 {
        lemma_entry_in_map(entries.drop_last(), i);
    }
}

/// Every name of the map is that of an entry.
pub(crate) proof fn lemma_map_in_entries<V>(entries: Seq<(String, V)>, name: Seq<char>)
    requires
        entries_map(entries).contains_key(name),
    ensures
        exists|i: int| 0 <= i < entries.len() && (#[trigger] entries[i]).0@ == name,
    decreases entries.len(),
{
    if entries.last().0@ != name {
        lemma_map_in_entries(entries.drop_last(), name);
        let i = choose|i: int|
            0 <= i < entries.drop_last().len() && (#[trigger] entries.drop_last()[i]).0@ == name;
        assert(entries[i].0@ == name);
    }
}

/// The map has as many names as there are entries.
pub(crate) proof fn lemma_map_len<V>(entries: Seq<(String, V)>)
    requires
        distinct_names(entries),
    ensures
        entries_map(entries).dom().finite(),
        entries_map(entries).len() == entries.len(),
    decreases entries.len(),
{
    if entries.len() > 0 {
        let rest = entries.drop_last();
        lemma_map_len(rest);
        if entries_map(rest).contains_key(entries.last().0@) {
            lemma_map_in_entries(rest, entries.last().0@);
        }
    }
}

/// A map is that of distinct entries if it holds each of them and nothing else.
proof fn lemma_map_is<V>(entries: Seq<(String, V)>, map: Map<Seq<char>, V>)
    requires
        distinct_names(entries),
        forall|i: int|
            0 <= i < entries.len() ==> map.contains_key((#[trigger] entries[i]).0@)
                && map[entries[i].0@] == entries[i].1,
        forall|name: Seq<char>| #[trigger]
            map.contains_key(name) ==> exists|i: int|
                0 <= i < entries.len() && (#[trigger] entries[i]).0@ == name,
    ensures
        entries_map(entries) == map,
{
    assert forall|name: Seq<char>| entries_map(entries).contains_key(name) implies map.contains_key(
        name,
    ) by {
        lemma_map_in_entries(entries, name);
    }
    assert forall|name: Seq<char>| #[trigger] map.contains_key(name) implies entries_map(
        entries,
    ).contains_key(name) && entries_map(entries)[name] == map[name] by {
        let i = choose|i: int| 0 <= i < entries.len() && (#[trigger] entries[i]).0@ == name;
        lemma_entry_in_map(entries, i);
    }
    assert(entries_map(entries) =~= map);
}

/// An entry under a new name is added to the map.
proof fn lemma_map_push<V>(entries: Seq<(String, V)>, entry: (String, V))
    requires
        distinct_names(entries),
        !entries_map(entries).contains_key(entry.0@),
    ensures
        distinct_names(entries.push(entry)),
        entries_map(entries.push(entry)) == entries_map(entries).insert(entry.0@, entry.1),
{
    let new = entries.push(entry);
    assert(new.drop_last() =~= entries);
    assert forall|i: int, j: int| 0 <= i < j < new.len() implies (#[trigger] new[i]).0@ != (
    #[trigger] new[j]).0@ by {
        lemma_entry_in_map(entries, i);
    }
}

/// Replacing the value of an entry replaces it in the map.
proof fn lemma_map_update<V>(entries: Seq<(String, V)>, i: int, entry: (String, V))
    requires
        distinct_names(entries),
        0 <= i < entries.len(),
        entries[i].0@ == entry.0@,
    ensures
        distinct_names(entries.update(i, entry)),
        entries_map(entries.update(i, entry)) == entries_map(entries).insert(entry.0@, entry.1),
{
    let new = entries.update(i, entry);
    let map = entries_map(entries).insert(entry.0@, entry.1);
    assert forall|j: int| 0 <= j < new.len() implies map.contains_key((#[trigger] new[j]).0@)
        && map[new[j].0@] == new[j].1 by {
        lemma_entry_in_map(entries, j);
        if j != i {
            assert(entries[j].0@ != entries[i].0@);
        }
    }
    assert forall|name: Seq<char>| #[trigger] map.contains_key(name) implies exists|j: int|
        0 <= j < new.len() && (#[trigger] new[j]).0@ == name by {
        if name == entry.0@ {
            assert(new[i].0@ == name);
        } else {
            lemma_map_in_entries(entries, name);
            let j = choose|j: int| 0 <= j < entries.len() && (#[trigger] entries[j]).0@ == name;
            assert(new[j].0@ == name);
        }
    }
    lemma_map_is(new, map);
}

/// Taking an entry out, with the last one in its place, takes its name out of the
/// map.
proof fn lemma_map_swap_remove<V>(entries: Seq<(String, V)>, i: int)
    requires
        distinct_names(entries),
        0 <= i < entries.len(),
    ensures
        distinct_names(entries.update(i, entries.last()).drop_last()),
        entries_map(entries.update(i, entries.last()).drop_last()) == entries_map(entries).remove(
            entries[i].0@,
        ),
{
    let last = entries.len() - 1;
    let new = entries.update(i, entries.last()).drop_last();
    let map = entries_map(entries).remove(entries[i].0@);
    assert forall|j: int, k: int| 0 <= j < k < new.len() implies (#[trigger] new[j]).0@ != (
    #[trigger] new[k]).0@ by {
        let j0 = if j == i { last } else { j };
        let k0 = if k == i { last } else { k };
        assert(entries[j0].0@ != entries[k0].0@);
    }
    assert forall|j: int| 0 <= j < new.len() implies map.contains_key((#[trigger] new[j]).0@)
        && map[new[j].0@] == new[j].1 by {
        let j0 = if j == i { last } else { j };
        lemma_entry_in_map(entries, j0);
        assert(entries[j0].0@ != entries[i].0@);
    }
    assert forall|name: Seq<char>| #[trigger] map.contains_key(name) implies exists|j: int|
        0 <= j < new.len() && (#[trigger] new[j]).0@ == name by {
        lemma_map_in_entries(entries, name);
        let j0 = choose|j0: int| 0 <= j0 < entries.len() && (#[trigger] entries[j0]).0@ == name;
        let j = if j0 == last { i } else { j0 };
        assert(new[j].0@ == name);
    }
    lemma_map_is(new, map);
}

impl<V> Fields<V> {
    #[verifier::type_invariant]
    spec fn inv(self) -> bool {
        distinct_names(self.entries@)
    }

    /// An empty table.
    pub fn new() -> (table: Self)
        ensures
            table@ == Map::<Seq<char>, V>::empty(),
    {
        Fields { entries: Vec::new() }
    }

    /// The position of the entry under `name`.
    fn position(&self, name: &str) -> (index: Option<usize>)
        ensures
            index is Some <==> self@.contains_key(name@),
            index matches Some(i) ==> {
                &&& i < self.entries@.len()
                &&& self.entries@[i as int].0@ == name@
            },
    {
        proof {
            use_type_invariant(self);
        }
        let mut i: usize = 0;
        while i < self.entries.len()
            invariant
                i <= self.entries@.len(),
                distinct_names(self.entries@),
                forall|j: int| 0 <= j < i ==> (#[trigger] self.entries@[j]).0@ != name@,
            decreases self.entries@.len() - i,
        {
            if crate::text::str_eq(self.entries[i].0.as_str(), name) {
                proof {
                    lemma_entry_in_map(self.entries@, i as int);
                }
                return Some(i);
            }
            i += 1;
        }
        proof {
            if self@.contains_key(name@) {
                lemma_map_in_entries(self.entries@, name@);
            }
        }
        None
    }

    /// The value under `name`.
    pub fn get(&self, name: &str) -> (value: Option<&V>)
        ensures
            value == (if self@.contains_key(name@) {
                Some(&self@[name@])
            } else {
                None
            }),
    {
        proof {
            use_type_invariant(self);
        }
        match self.position(name) {
            Some(i) => {
                proof {
                    lemma_entry_in_map(self.entries@, i as int);
                }
                Some(&self.entries[i].1)
            },
            None => None,
        }
    }

    /// Puts `value` under `name`, in place of what stood there.
    pub fn insert(&mut self, name: String, value: V)
        ensures
            final(self)@ == old(self)@.insert(name@, value),
    {
        proof {
            use_type_invariant(&*self);
        }
        let position = self.position(name.as_str());
        let mut entries: Vec<(String, V)> = Vec::new();
        std::mem::swap(&mut entries, &mut self.entries);
        match position {
            Some(i) => {
                proof {
                    lemma_map_update(entries@, i as int, (name, value));
                }
                entries.set(i, (name, value));
            },
            None => {
                proof {
                    lemma_map_push(entries@, (name, value));
                }
                entries.push((name, value));
            },
        }
        self.entries = entries;
    }

    /// The number of names.
    pub fn len(&self) -> (count: usize)
        ensures
            count == self@.len(),
            self@.dom().finite(),
    {
        proof {
            use_type_invariant(self);
            lemma_map_len(self.entries@);
        }
        self.entries.len()
    }

    /// Whether the table holds no name.
    pub fn is_empty(&self) -> (empty: bool)
        ensures
            empty == (self@ == Map::<Seq<char>, V>::empty()),
    {
        proof {
            use_type_invariant(self);
            if self.entries@.len() > 0 {
                lemma_entry_in_map(self.entries@, 0);
            }
        }
        self.entries.len() == 0
    }

    /// The names with their values, each name once.
    pub fn entries(&self) -> (entries: &Vec<(String, V)>)
        ensures
            distinct_names(entries@),
            entries_map(entries@) == self@,
    {
        proof {
            use_type_invariant(self);
        }
        &self.entries
    }

    /// The names with their values, each name once, out of the table.
    pub fn into_entries(self) -> (entries: Vec<(String, V)>)
        ensures
            distinct_names(entries@),
            entries_map(entries@) == self@,
    {
        proof {
            use_type_invariant(&self);
        }
        self.entries
    }
}

impl<V> Default for Fields<V> {
    /// An empty table.
    fn default() -> (table: Self)
        ensures
            table@ == Map::<Seq<char>, V>::empty(),
    {
        Fields::new()
    }
}

/// A map from names to values, searched by hashing.
///
/// The names stand in a list with their values, and an index says where.
pub struct NameTable<V> {
    entries: Vec<(String, V)>,
    index: StringHashMap<usize>,
}

impl<V> View for NameTable<V> {
    type V = Map<Seq<char>, V>;

    closed spec fn view(&self) -> Map<Seq<char>, V> {
        entries_map(self.entries@)
    }
}

/// `index` says of each entry where it stands, and of nothing else.
spec fn indexes<V>(index: Map<Seq<char>, usize>, entries: Seq<(String, V)>) -> bool {
    &&& forall|i: int|
        0 <= i < entries.len() ==> index.contains_key((#[trigger] entries[i]).0@)
            && index[entries[i].0@] == i
    &&& forall|name: Seq<char>| #[trigger]
        index.contains_key(name) ==> index[name] < entries.len() && entries[index[name] as int].0@
            == name
}

/// What is indexed stands under distinct names, and the index knows all of them.
proof fn lemma_indexed<V>(index: Map<Seq<char>, usize>, entries: Seq<(String, V)>)
    requires
        indexes(index, entries),
    ensures
        distinct_names(entries),
        forall|name: Seq<char>|
            index.contains_key(name) <==> #[trigger] entries_map(entries).contains_key(name),
{
    assert forall|i: int, j: int| 0 <= i < j < entries.len() implies (#[trigger] entries[i]).0@ != (
    #[trigger] entries[j]).0@ by {
        assert(index[entries[i].0@] == i);
        assert(index[entries[j].0@] == j);
    }
    assert forall|name: Seq<char>|
        index.contains_key(name) <==> #[trigger] entries_map(entries).contains_key(name) by {
        if index.contains_key(name) {
            lemma_entry_in_map(entries, index[name] as int);
        }
        if entries_map(entries).contains_key(name) {
            lemma_map_in_entries(entries, name);
        }
    }
}

impl<V> NameTable<V> {
    #[verifier::type_invariant]
    spec fn inv(self) -> bool {
        indexes(self.index@, self.entries@)
    }

    /// An empty table.
    pub fn new() -> (table: Self)
        ensures
            table@ == Map::<Seq<char>, V>::empty(),
    {
        NameTable { entries: Vec::new(), index: StringHashMap::new() }
    }

    /// The value under `name`.
    pub fn get(&self, name: &str) -> (value: Option<&V>)
        ensures
            value == (if self@.contains_key(name@) {
                Some(&self@[name@])
            } else {
                None
            }),
    {
        proof {
            use_type_invariant(self);
            lemma_indexed(self.index@, self.entries@);
            assert(self.index@.contains_key(name@) <==> entries_map(self.entries@).contains_key(
                name@,
            ));
        }
        match self.index.get(name) {
            Some(i) => {
                proof {
                    lemma_entry_in_map(self.entries@, *i as int);
                }
                Some(&self.entries[*i].1)
            },
            None => None,
        }
    }

    /// Puts `value` under `name`, in place of what stood there.
    pub fn insert(&mut self, name: String, value: V)
        ensures
            final(self)@ == old(self)@.insert(name@, value),
    {
        let mut table = NameTable::new();
        std::mem::swap(&mut table, self);
        proof {
            use_type_invariant(&table);
            lemma_indexed(table.index@, table.entries@);
            assert(table.index@.contains_key(name@) <==> entries_map(
                table.entries@,
            ).contains_key(name@));
        }
        let NameTable { mut entries, mut index } = table;
        let position = match index.get(name.as_str()) {
            Some(i) => Some(*i),
            None => None,
        };
        match position {
            Some(i) => {
                proof {
                    lemma_map_update(entries@, i as int, (name, value));
                }
                entries.set(i, (name, value));
            },
            None => {
                proof {
                    lemma_map_push(entries@, (name, value));
                }
                index.insert(name.clone(), entries.len());
                entries.push((name, value));
            },
        }
        *self = NameTable { entries, index };
    }

    /// Takes out what stands under `name`.
    pub fn remove(&mut self, name: &str) -> (value: Option<V>)
        ensures
            final(self)@ == old(self)@.remove(name@),
            value == (if old(self)@.contains_key(name@) {
                Some(old(self)@[name@])
            } else {
                None
            }),
    {
        let mut table = NameTable::new();
        std::mem::swap(&mut table, self);
        proof {
            use_type_invariant(&table);
            lemma_indexed(table.index@, table.entries@);
            assert(table.index@.contains_key(name@) <==> entries_map(
                table.entries@,
            ).contains_key(name@));
        }
        let NameTable { mut entries, mut index } = table;
        let position = match index.get(name) {
            Some(i) => Some(*i),
            None => None,
        };
        let value = match position {
            Some(i) => {
                let ghost before = entries@;
                proof {
                    lemma_entry_in_map(before, i as int);
                    lemma_map_swap_remove(before, i as int);
                }
                let (_, value) = entries.swap_remove(i);
                index.remove(name);
                if i < entries.len() {
                    index.insert(entries[i].0.clone(), i);
                }
                proof {
                    assert forall|j: int| 0 <= j < entries@.len() implies index@.contains_key(
                        (#[trigger] entries@[j]).0@,
                    ) && index@[entries@[j].0@] == j by {
                        let j0 = if j == i { before.len() - 1 } else { j };
                        assert(before[j0].0@ != before[i as int].0@);
                        if j != i && i < entries@.len() {
                            assert(before[j0].0@ != before[before.len() - 1].0@);
                        }
                    }
                    assert forall|n: Seq<char>| #[trigger] index@.contains_key(n) implies index@[n]
                        < entries@.len() && entries@[index@[n] as int].0@ == n by {
                        if i < entries@.len() && n == before[before.len() - 1].0@ {
                        } else {
                            assert(n != name@);
                            let j = table.index@[n] as int;
                            assert(before[j].0@ == n);
                            assert(j != i);
                        }
                    }
                }
                Some(value)
            },
            None => {
                assert(entries_map(entries@) =~= entries_map(entries@).remove(name@));
                None
            },
        };
        *self = NameTable { entries, index };
        value
    }

    /// The number of names.
    pub fn len(&self) -> (count: usize)
        ensures
            count == self@.len(),
            self@.dom().finite(),
    {
        proof {
            use_type_invariant(self);
            lemma_indexed(self.index@, self.entries@);
            lemma_map_len(self.entries@);
        }
        self.entries.len()
    }

    /// Whether the table holds no name.
    pub fn is_empty(&self) -> (empty: bool)
        ensures
            empty == (self@ == Map::<Seq<char>, V>::empty()),
    {
        proof {
            use_type_invariant(self);
            lemma_indexed(self.index@, self.entries@);
            if self.entries@.len() > 0 {
                lemma_entry_in_map(self.entries@, 0);
            }
        }
        self.entries.len() == 0
    }

    /// The names with their values, each name once.
    pub fn entries(&self) -> (entries: &Vec<(String, V)>)
        ensures
            distinct_names(entries@),
            entries_map(entries@) == self@,
    {
        proof {
            use_type_invariant(self);
            lemma_indexed(self.index@, self.entries@);
        }
        &self.entries
    }

    /// The names with their values, each name once, out of the table.
    pub fn into_entries(self) -> (entries: Vec<(String, V)>)
        ensures
            distinct_names(entries@),
            entries_map(entries@) == self@,
    {
        proof {
            use_type_invariant(&self);
            lemma_indexed(self.index@, self.entries@);
        }
        self.entries
    }
}

impl<V> Default for NameTable<V> {
    /// An empty table.
    fn default() -> (table: Self)
        ensures
            table@ == Map::<Seq<char>, V>::empty(),
    {
        NameTable::new()
    }
}

} // verus!
