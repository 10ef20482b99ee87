//! An ordered collection of values, each under a name of its own.
use vstd::prelude::*;

verus! {

/// Whether some entry of `entries` goes by `name`.
pub open spec fn has_name<V>(entries: Seq<(Seq<char>, V)>, name: Seq<char>) -> bool {
    exists|i: int| 0 <= i < entries.len() && (#[trigger] entries[i]).0 == name
}

/// The place of an entry that goes by `name`, where there is one.
pub open spec fn index_of_name<V>(entries: Seq<(Seq<char>, V)>, name: Seq<char>) -> int {
    choose|i: int| 0 <= i < entries.len() && (#[trigger] entries[i]).0 == name
}

/// No two entries go by the same name.
pub open spec fn distinct_names<V>(entries: Seq<(Seq<char>, V)>) -> bool {
    forall|i: int, j: int|
        0 <= i < j < entries.len() ==> (#[trigger] entries[i]).0 != (#[trigger] entries[j]).0
}

/// `entries` after `value` was put under `name`: in the place of the entry
/// that went by that name, or behind the last entry where there was none.
pub open spec fn with_entry<V>(entries: Seq<(Seq<char>, V)>, name: Seq<char>, value: V) -> Seq<
    (Seq<char>, V),
> {
    if has_name(entries, name) {
        entries.update(index_of_name(entries, name), (name, value))
    } else {
        entries.push((name, value))
    }
}

/// `entries` without the entry that goes by `name`; the others keep their order.
pub open spec fn without_name<V>(entries: Seq<(Seq<char>, V)>, name: Seq<char>) -> Seq<
    (Seq<char>, V),
> {
    if has_name(entries, name) {
        entries.remove(index_of_name(entries, name))
    } else {
        entries
    }
}

/// The value under each name, with the order of the entries forgotten.
pub open spec fn as_map<V>(entries: Seq<(Seq<char>, V)>) -> Map<Seq<char>, V> {
    Map::new(
        |name: Seq<char>| has_name(entries, name),
        |name: Seq<char>| entries[index_of_name(entries, name)].1,
    )
}

/// Among distinct names, the place of a name is the only place that holds it.
pub proof fn lemma_index_of_name<V>(entries: Seq<(Seq<char>, V)>, i: int)
    requires
        distinct_names(entries),
        0 <= i < entries.len(),
    ensures
        has_name(entries, entries[i].0),
        index_of_name(entries, entries[i].0) == i,
{
    let j = index_of_name(entries, entries[i].0);
    assert(0 <= j < entries.len() && entries[j].0 == entries[i].0);
}

/// The entries with `f` applied to each value; the names stay.
pub open spec fn map_values<V, W>(entries: Seq<(Seq<char>, V)>, f: spec_fn(V) -> W) -> Seq<
    (Seq<char>, W),
> {
    Seq::new(entries.len(), |i: int| (entries[i].0, f(entries[i].1)))
}

/// Applying a function to the values changes neither which names are held
/// nor where they stand.
pub proof fn lemma_map_values_names<V, W>(
    entries: Seq<(Seq<char>, V)>,
    f: spec_fn(V) -> W,
    name: Seq<char>,
)
    requires
        distinct_names(entries),
    ensures
        distinct_names(map_values(entries, f)),
        has_name(map_values(entries, f), name) == has_name(entries, name),
        has_name(entries, name) ==> index_of_name(map_values(entries, f), name) == index_of_name(
            entries,
            name,
        ),
{
    let mapped = map_values(entries, f);
    assert forall|i: int, j: int| 0 <= i < j < mapped.len() implies (#[trigger] mapped[i]).0 != (
    #[trigger] mapped[j]).0 by {
        assert(entries[i].0 != entries[j].0);
    }
    if has_name(entries, name) {
        let i = index_of_name(entries, name);
        assert(mapped[i].0 == name);
        lemma_index_of_name(mapped, i);
    }
    if has_name(mapped, name) {
        let i = index_of_name(mapped, name);
        assert(entries[i].0 == name);
    }
}

/// Putting a value under a name and applying a function to the values can be
/// done in either order.
pub proof fn lemma_map_values_with_entry<V, W>(
    entries: Seq<(Seq<char>, V)>,
    f: spec_fn(V) -> W,
    name: Seq<char>,
    value: V,
)
    requires
        distinct_names(entries),
    ensures
        map_values(with_entry(entries, name, value), f) == with_entry(
            map_values(entries, f),
            name,
            f(value),
        ),
{
    lemma_map_values_names(entries, f, name);
    assert(map_values(with_entry(entries, name, value), f) =~= with_entry(
        map_values(entries, f),
        name,
        f(value),
    ));
}

/// Taking a name out and applying a function to the values can be done in
/// either order.
pub proof fn lemma_map_values_without_name<V, W>(
    entries: Seq<(Seq<char>, V)>,
    f: spec_fn(V) -> W,
    name: Seq<char>,
)
    requires
        distinct_names(entries),
    ensures
        map_values(without_name(entries, name), f) == without_name(map_values(entries, f), name),
{
    lemma_map_values_names(entries, f, name);
    assert(map_values(without_name(entries, name), f) =~= without_name(
        map_values(entries, f),
        name,
    ));
}

/// Putting a value under a name keeps the names distinct, and as a map it is
/// an insertion.
pub proof fn lemma_with_entry<V>(entries: Seq<(Seq<char>, V)>, name: Seq<char>, value: V)
    requires
        distinct_names(entries),
    ensures
        distinct_names(with_entry(entries, name, value)),
        as_map(with_entry(entries, name, value)) == as_map(entries).insert(name, value),
{
    let after = with_entry(entries, name, value);
    let place = if has_name(entries, name) {
        index_of_name(entries, name)
    } else {
        entries.len() as int
    };
    assert(after.len() > place && after[place] == (name, value));
    assert forall|i: int| 0 <= i < after.len() && i != place implies after[i] == entries[i]
        && after[i].0 != name by {
        if has_name(entries, name) {
            assert(entries[place].0 == name);
        }
    }
    assert forall|i: int, j: int| 0 <= i < j < after.len() implies (#[trigger] after[i]).0 != (
    #[trigger] after[j]).0 by {
        if i != place && j != place {
            assert(entries[i].0 != entries[j].0);
        }
    }
    lemma_index_of_name(after, place);
    assert forall|other: Seq<char>| other != name implies has_name(after, other) == has_name(
        entries,
        other,
    ) && (has_name(entries, other) ==> after[index_of_name(after, other)].1
        == entries[index_of_name(entries, other)].1) by {
        if has_name(entries, other) {
            let i = index_of_name(entries, other);
            assert(after[i].0 == other);
            lemma_index_of_name(after, i);
        }
        if has_name(after, other) {
            let i = index_of_name(after, other);
            assert(entries[i].0 == other);
        }
    }
    assert(as_map(after) =~= as_map(entries).insert(name, value));
}

/// Taking a name out keeps the names distinct, and as a map it is a removal.
pub proof fn lemma_without_name<V>(entries: Seq<(Seq<char>, V)>, name: Seq<char>)
    requires
        distinct_names(entries),
    ensures
        distinct_names(without_name(entries, name)),
        as_map(without_name(entries, name)) == as_map(entries).remove(name),
{
    let after = without_name(entries, name);
    if has_name(entries, name) {
        let place = index_of_name(entries, name);
        assert forall|i: int| 0 <= i < after.len() implies (#[trigger] after[i]) == entries[if i
            < place {
            i
        } else {
            i + 1
        }] by {}
        assert forall|i: int, j: int| 0 <= i < j < after.len() implies (#[trigger] after[i]).0 != (
        #[trigger] after[j]).0 by {
            let a = if i < place { i } else { i + 1 };
            let b = if j < place { j } else { j + 1 };
            assert(entries[a].0 != entries[b].0);
        }
        assert(!has_name(after, name)) by {
            if has_name(after, name) {
                let i = index_of_name(after, name);
                let a = if i < place { i } else { i + 1 };
                assert(entries[a].0 == name);
                lemma_index_of_name(entries, a);
            }
        }
        assert forall|other: Seq<char>| other != name implies has_name(after, other) == has_name(
            entries,
            other,
        ) && (has_name(entries, other) ==> after[index_of_name(after, other)].1
            == entries[index_of_name(entries, other)].1) by {
            if has_name(entries, other) {
                let i = index_of_name(entries, other);
                let a = if i < place { i } else { i - 1 };
                assert(after[a].0 == other);
                lemma_index_of_name(after, a);
            }
            if has_name(after, other) {
                let i = index_of_name(after, other);
                let a = if i < place { i } else { i + 1 };
                assert(entries[a].0 == other);
                lemma_index_of_name(entries, a);
            }
        }
    }
    assert(as_map(after) =~= as_map(entries).remove(name));
}

/// Changing the value at one place is, as a map, an insertion under the
/// name at that place.
pub proof fn lemma_update_value<V>(entries: Seq<(Seq<char>, V)>, name: Seq<char>, value: V)
    requires
        distinct_names(entries),
        has_name(entries, name),
    ensures
        entries.update(index_of_name(entries, name), (name, value)) == with_entry(
            entries,
            name,
            value,
        ),
{
}

/// Values in the order in which their names first came, no name twice.
#[derive(Debug, PartialEq, Eq)]
pub struct NameMap<V> {
    names: Vec<String>,
    values: Vec<V>,
}

impl<V> View for NameMap<V> {
    type V = Seq<(Seq<char>, V)>;

    closed spec fn view(&self) -> Seq<(Seq<char>, V)> {
        Seq::new(self.names@.len(), |i: int| (self.names@[i]@, self.values@[i]))
    }
}

impl<V> NameMap<V> {
    #[verifier::type_invariant]
    spec fn inv(self) -> bool {
        &&& self.names@.len() == self.values@.len()
        &&& forall|i: int, j: int|
            0 <= i < j < self.names@.len() ==> (#[trigger] self.names@[i])@ != (
            #[trigger] self.names@[j])@
    }

    /// A collection without entries.
    pub fn new() -> (out: Self)
        ensures
            out@ == Seq::<(Seq<char>, V)>::empty(),
    {
        NameMap { names: Vec::new(), values: Vec::new() }
    }

    /// The number of entries.
    pub fn len(&self) -> (n: usize)
        ensures
            n == self@.len(),
            distinct_names(self@),
    {
        proof {
            use_type_invariant(self);
        }
        self.names.len()
    }

    /// The name of the entry at place `i`.
    pub fn name_at(&self, i: usize) -> (name: &String)
        requires
            i < self@.len(),
        ensures
            name@ == self@[i as int].0,
    {
        &self.names[i]
    }

    /// The value of the entry at place `i`.
    pub fn value_at(&self, i: usize) -> (value: &V)
        requires
            i < self@.len(),
        ensures
            *value == self@[i as int].1,
    {
        proof {
            use_type_invariant(self);
        }
        &self.values[i]
    }

    /// The place of the entry that goes by `name`.
    pub fn position(&self, name: &str) -> (found: Option<usize>)
        ensures
            distinct_names(self@),
            found is Some <==> has_name(self@, name@),
            found matches Some(i) ==> i == index_of_name(self@, name@) && i < self@.len(),
    {
        proof {
            use_type_invariant(self);
        }
        let wanted = String::from_str(name);
        let mut i: usize = 0;
        while i < self.names.len()
            invariant
                i <= self.names@.len(),
                wanted@ == name@,
                distinct_names(self@),
                forall|k: int| 0 <= k < i ==> (#[trigger] self@[k]).0 != name@,
            decreases self.names@.len() - i,
        {
            if self.names[i] == wanted {
                proof {
                    lemma_index_of_name(self@, i as int);
                }
                return Some(i);
            }
            i += 1;
        }
        None
    }

    /// The value under `name`.
    pub fn get(&self, name: &str) -> (found: Option<&V>)
        ensures
            distinct_names(self@),
            found is Some <==> has_name(self@, name@),
            found matches Some(value) ==> *value == self@[index_of_name(self@, name@)].1,
    {
        match self.position(name) {
            Some(i) => Some(self.value_at(i)),
            None => None,
        }
    }

    /// The value under `name`, to be changed in place.
    pub fn get_mut(&mut self, name: &str) -> (found: Option<&mut V>)
        ensures
            distinct_names(old(self)@),
            found is Some <==> has_name(old(self)@, name@),
            found is None ==> final(self)@ == old(self)@,
            found matches Some(value) ==> {
                &&& *value == old(self)@[index_of_name(old(self)@, name@)].1
                &&& final(self)@ == old(self)@.update(
                    index_of_name(old(self)@, name@),
                    (name@, *final(value)),
                )
            },
    {
        match self.position(name) {
            Some(i) => {
                proof {
                    use_type_invariant(&*self);
                }
                Some(&mut self.values[i])
            },
            None => None,
        }
    }

    /// Puts `value` under `name` and hands back the value that was there.
    pub fn insert(&mut self, name: String, value: V) -> (displaced: Option<V>)
        ensures
            distinct_names(old(self)@),
            distinct_names(final(self)@),
            final(self)@ == with_entry(old(self)@, name@, value),
            displaced == if has_name(old(self)@, name@) {
                Some(old(self)@[index_of_name(old(self)@, name@)].1)
            } else {
                None
            },
    {
        match self.position(name.as_str()) {
            Some(i) => {
                proof {
                    use_type_invariant(&*self);
                }
                let mut value = value;
                std::mem::swap(&mut self.values[i], &mut value);
                Some(value)
            },
            None => {
                proof {
                    use_type_invariant(&*self);
                    assert forall|k: int| 0 <= k < self.names@.len() implies (
                    #[trigger] self.names@[k])@ != name@ by {
                        assert(self@[k].0 == self.names@[k]@);
                    }
                }
                let mut whole = NameMap::new();
                std::mem::swap(self, &mut whole);
                let NameMap { mut names, mut values } = whole;
                names.push(name);
                values.push(value);
                *self = NameMap { names, values };
                None
            },
        }
    }

    /// Takes the entry that goes by `name` out and hands its value back.
    pub fn remove(&mut self, name: &str) -> (removed: Option<V>)
        ensures
            distinct_names(old(self)@),
            distinct_names(final(self)@),
            final(self)@ == without_name(old(self)@, name@),
            removed == if has_name(old(self)@, name@) {
                Some(old(self)@[index_of_name(old(self)@, name@)].1)
            } else {
                None
            },
    {
        match self.position(name) {
            Some(i) => {
                proof {
                    use_type_invariant(&*self);
                }
                let mut whole = NameMap::new();
                std::mem::swap(self, &mut whole);
                let NameMap { mut names, mut values } = whole;
                names.remove(i);
                let value = values.remove(i);
                *self = NameMap { names, values };
                Some(value)
            },
            None => None,
        }
    }
}

} // verus!
