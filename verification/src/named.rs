//! Values by name, in the order of their names.

use vstd::prelude::*;
use vstd::utf8::encode_utf8;

use crate::bytes::{bytes_before, law_byte_order_is_total, stands_before};
use crate::text::{lemma_utf8_injective, text_equal, texts};

verus! {

/// Whether a name stands before another: by its bytes.
pub open spec fn name_before(left: Seq<char>, right: Seq<char>) -> bool {
    bytes_before(encode_utf8(left), encode_utf8(right))
}

/// Whether names stand in ascending order, none of them twice.
pub open spec fn ascending(names: Seq<Seq<char>>) -> bool {
    forall|i: int, j: int|
        0 <= i < j < names.len() ==> #[trigger] name_before(names[i], names[j])
}

/// The names of entries.
pub open spec fn entry_names<V>(entries: Seq<(String, V)>) -> Seq<Seq<char>> {
    entries.map_values(|entry: (String, V)| entry.0@)
}

/// Whether an entry has that name.
pub open spec fn is_named<V>(entry: (String, V), name: Seq<char>) -> bool {
    entry.0@ == name
}

/// Whether there is an entry of that name.
pub open spec fn has_name<V>(entries: Seq<(String, V)>, name: Seq<char>) -> bool {
    exists|i: int| 0 <= i < entries.len() && #[trigger] is_named(entries[i], name)
}

/// Where the entry of that name is.
pub open spec fn name_index<V>(entries: Seq<(String, V)>, name: Seq<char>) -> int {
    choose|i: int| 0 <= i < entries.len() && #[trigger] is_named(entries[i], name)
}

/// The values by name.
pub open spec fn values_by_name<V>(entries: Seq<(String, V)>) -> Map<Seq<char>, V> {
    Map::new(
        |name: Seq<char>| has_name(entries, name),
        |name: Seq<char>| entries[name_index(entries, name)].1,
    )
}

/// In ascending order an entry's value is that of its name.
proof fn lemma_value<V>(entries: Seq<(String, V)>, index: int)
    requires
        ascending(entry_names(entries)),
        0 <= index < entries.len(),
    ensures
        values_by_name(entries).dom().contains(entries[index].0@),
        values_by_name(entries)[entries[index].0@] == entries[index].1,
        name_index(entries, entries[index].0@) == index,
{
    let name = entries[index].0@;
    let names = entry_names(entries);
    assert(is_named(entries[index], name));
    let found = name_index(entries, name);
    assert(is_named(entries[found], name));
    law_byte_order_is_total(encode_utf8(name), encode_utf8(name), encode_utf8(name));
    if found < index {
        assert(name_before(names[found], names[index]));
    }
    if index < found {
        assert(name_before(names[index], names[found]));
    }
}

/// Replacing the value of a name.
proof fn lemma_value_replaced<V>(entries: Seq<(String, V)>, index: int, entry: (String, V))
    requires
        ascending(entry_names(entries)),
        0 <= index < entries.len(),
        entries[index].0@ == entry.0@,
    ensures
        ascending(entry_names(entries.update(index, entry))),
        values_by_name(entries.update(index, entry)) == values_by_name(entries).insert(
            entry.0@,
            entry.1,
        ),
{
    let next = entries.update(index, entry);
    assert(entry_names(next) =~= entry_names(entries));
    lemma_value(next, index);
    lemma_value(entries, index);
    assert forall|name: Seq<char>| has_name(next, name) == has_name(entries, name) by {
        if has_name(next, name) {
            let i = name_index(next, name);
            assert(is_named(next[i], name));
            assert(is_named(entries[i], name));
        }
        if has_name(entries, name) {
            let i = name_index(entries, name);
            assert(is_named(entries[i], name));
            assert(is_named(next[i], name));
        }
    }
    assert forall|name: Seq<char>| has_name(next, name) && name != entry.0@ implies (
    #[trigger] values_by_name(next)[name]) == values_by_name(entries)[name] by {
        let i = name_index(next, name);
        assert(is_named(next[i], name));
        lemma_value(next, i);
        lemma_value(entries, i);
    }
    assert(values_by_name(next) =~= values_by_name(entries).insert(entry.0@, entry.1));
}

/// Adding the value of a new name in its place.
proof fn lemma_value_inserted<V>(entries: Seq<(String, V)>, index: int, entry: (String, V))
    requires
        ascending(entry_names(entries)),
        0 <= index <= entries.len(),
        forall|i: int| 0 <= i < index ==> name_before((#[trigger] entries[i]).0@, entry.0@),
        forall|i: int|
            index <= i < entries.len() ==> name_before(entry.0@, (#[trigger] entries[i]).0@),
    ensures
        ascending(entry_names(entries.insert(index, entry))),
        values_by_name(entries.insert(index, entry)) == values_by_name(entries).insert(
            entry.0@,
            entry.1,
        ),
{
    let next = entries.insert(index, entry);
    let names = entry_names(entries);
    let next_names = entry_names(next);
    assert forall|i: int, j: int| 0 <= i < j < next_names.len() implies #[trigger] name_before(
        next_names[i],
        next_names[j],
    ) by {
        let before = if i < index {
            i
        } else {
            i - 1
        };
        let behind = if j < index {
            j
        } else {
            j - 1
        };
        if i != index && j != index {
            assert(name_before(names[before], names[behind]));
        } else if i == index {
            assert(next[j] == entries[behind]);
        } else {
            assert(next[i] == entries[before]);
        }
    }
    lemma_value(next, index);
    law_byte_order_is_total(encode_utf8(entry.0@), encode_utf8(entry.0@), encode_utf8(entry.0@));
    assert forall|name: Seq<char>| name != entry.0@ implies has_name(next, name) == has_name(
        entries,
        name,
    ) by {
        if has_name(next, name) {
            let i = name_index(next, name);
            assert(is_named(next[i], name));
            if i < index {
                assert(is_named(entries[i], name));
            } else {
                assert(is_named(entries[i - 1], name));
            }
        }
        if has_name(entries, name) {
            let i = name_index(entries, name);
            assert(is_named(entries[i], name));
            if i < index {
                assert(is_named(next[i], name));
            } else {
                assert(is_named(next[i + 1], name));
            }
        }
    }
    assert forall|name: Seq<char>| has_name(next, name) && name != entry.0@ implies (
    #[trigger] values_by_name(next)[name]) == values_by_name(entries)[name] by {
        let i = name_index(next, name);
        assert(is_named(next[i], name));
        lemma_value(next, i);
        if i < index {
            lemma_value(entries, i);
        } else {
            lemma_value(entries, i - 1);
        }
    }
    assert(values_by_name(next) =~= values_by_name(entries).insert(entry.0@, entry.1));
}

/// Values by name. The names stand in ascending order, and none of them twice.
#[derive(Debug, PartialEq, Eq)]
pub struct NamedValues<V> {
    entries: Vec<(String, V)>,
}

impl<V> NamedValues<V> {
    #[verifier::type_invariant]
    spec fn well_formed(&self) -> bool {
        ascending(entry_names(self.entries@))
    }

    /// The entries, in the order of their names.
    pub closed spec fn listed(&self) -> Seq<(String, V)> {
        self.entries@
    }

    /// The values by name.
    pub open spec fn contents(&self) -> Map<Seq<char>, V> {
        values_by_name(self.listed())
    }

    /// No value.
    pub fn new() -> (values: Self)
        ensures
            values.listed().len() == 0,
            values.contents() == Map::<Seq<char>, V>::empty(),
    {
        let values = NamedValues { entries: Vec::new() };
        assert(values.contents() =~= Map::<Seq<char>, V>::empty());
        values
    }

    /// With the value of a name, in place of what had that name.
    pub fn with(self, name: String, value: V) -> (values: Self)
        ensures
            values.contents() == self.contents().insert(name@, value),
            ascending(entry_names(values.listed())),
    {
        proof {
            use_type_invariant(&self);
        }
        let mut entries: Vec<(String, V)> = self.entries;
        let ghost before = entries@;
        let mut index: usize = 0;
        while index < entries.len() && stands_before(
            entries[index].0.as_str().as_bytes(),
            name.as_str().as_bytes(),
        )
            invariant
                index <= entries@.len(),
                entries@ == before,
                forall|i: int| 0 <= i < index ==> name_before((#[trigger] before[i]).0@, name@),
            ensures
                index <= entries@.len(),
                entries@ == before,
                forall|i: int| 0 <= i < index ==> name_before((#[trigger] before[i]).0@, name@),
                index < entries@.len() ==> !name_before(before[index as int].0@, name@),
            decreases entries@.len() - index,
        {
            index = index + 1;
        }
        if index < entries.len() && text_equal(entries[index].0.as_str(), name.as_str()) {
            proof {
                lemma_value_replaced(before, index as int, (name, value));
            }
            entries.set(index, (name, value));
        } else {
            proof {
                let names = entry_names(before);
                assert forall|i: int| index <= i < before.len() implies name_before(
                    name@,
                    (#[trigger] before[i]).0@,
                ) by {
                    let first = before[index as int].0@;
                    law_byte_order_is_total(
                        encode_utf8(name@),
                        encode_utf8(first),
                        encode_utf8(before[i].0@),
                    );
                    lemma_utf8_injective(name@, first);
                    if i > index {
                        assert(name_before(names[index as int], names[i]));
                    }
                }
                lemma_value_inserted(before, index as int, (name, value));
            }
            entries.insert(index, (name, value));
        }
        NamedValues { entries }
    }

    /// How many values there are.
    pub fn len(&self) -> (length: usize)
        ensures
            length == self.listed().len(),
    {
        self.entries.len()
    }

    /// The entry at that place in the order of the names.
    pub fn entry(&self, index: usize) -> (entry: &(String, V))
        requires
            index < self.listed().len(),
        ensures
            *entry == self.listed()[index as int],
    {
        &self.entries[index]
    }

    /// The value of a name.
    pub fn get(&self, name: &str) -> (value: Option<&V>)
        ensures
            match value {
                Some(value) => self.contents().dom().contains(name@) && self.contents()[name@]
                    == *value,
                None => !self.contents().dom().contains(name@),
            },
    {
        proof {
            use_type_invariant(self);
        }
        let mut index: usize = 0;
        while index < self.entries.len()
            invariant
                index <= self.entries@.len(),
                ascending(entry_names(self.entries@)),
                forall|i: int| 0 <= i < index ==> !is_named(#[trigger] self.entries@[i], name@),
            decreases self.entries@.len() - index,
        {
            if text_equal(self.entries[index].0.as_str(), name) {
                proof {
                    lemma_value(self.entries@, index as int);
                }
                return Some(&self.entries[index].1);
            }
            index = index + 1;
        }
        assert(!has_name(self.entries@, name@));
        None
    }

    /// The names, in ascending order.
    pub fn names(&self) -> (names: Vec<String>)
        ensures
            texts(names@) == entry_names(self.listed()),
            ascending(texts(names@)),
            forall|name: Seq<char>| #[trigger]
                texts(names@).contains(name) <==> self.contents().dom().contains(name),
    {
        proof {
            use_type_invariant(self);
        }
        let mut names: Vec<String> = Vec::new();
        let mut index: usize = 0;
        while index < self.entries.len()
            invariant
                index <= self.entries@.len(),
                texts(names@) == entry_names(self.entries@).take(index as int),
            decreases self.entries@.len() - index,
        {
            let ghost before = texts(names@);
            names.push(self.entries[index].0.clone());
            assert(texts(names@) =~= before.push(self.entries@[index as int].0@));
            assert(texts(names@) =~= entry_names(self.entries@).take(index + 1));
            index = index + 1;
        }
        let ghost listed = entry_names(self.entries@);
        assert(listed.take(index as int) =~= listed);
        assert forall|name: Seq<char>| #[trigger]
            listed.contains(name) <==> self.contents().dom().contains(name) by {
            if listed.contains(name) {
                let i = choose|i: int| 0 <= i < listed.len() && listed[i] == name;
                assert(is_named(self.entries@[i], name));
            }
            if has_name(self.entries@, name) {
                let i = name_index(self.entries@, name);
                assert(is_named(self.entries@[i], name));
                assert(listed[i] == name);
            }
        }
        names
    }
}

impl<V: Clone> Clone for NamedValues<V> {
    /// The same names, each with a clone of its value.
    fn clone(&self) -> (copy: Self)
        ensures
            entry_names(copy.listed()) == entry_names(self.listed()),
    {
        proof {
            use_type_invariant(self);
        }
        let mut entries: Vec<(String, V)> = Vec::new();
        let mut index: usize = 0;
        while index < self.entries.len()
            invariant
                index <= self.entries@.len(),
                entry_names(entries@) == entry_names(self.entries@).take(index as int),
            decreases self.entries@.len() - index,
        {
            let ghost before = entry_names(entries@);
            let entry: &(String, V) = &self.entries[index];
            entries.push((entry.0.clone(), entry.1.clone()));
            assert(entry_names(entries@) =~= before.push(entry.0@));
            assert(entry_names(entries@) =~= entry_names(self.entries@).take(index + 1));
            index = index + 1;
        }
        assert(entry_names(entries@) =~= entry_names(self.entries@));
        NamedValues { entries }
    }
}

} // verus!
