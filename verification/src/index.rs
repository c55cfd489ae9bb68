//! Ordered tables from names to numbers, kept as `IndexMap`.

use indexmap::IndexMap;
use vstd::prelude::*;

verus! {

/// The hash table of the `indexmap` crate, which keeps its entries in the order
/// of their insertion. Nothing is known of its inside.
#[verifier::external_type_specification]
#[verifier::external_body]
#[verifier::reject_recursive_types(K)]
#[verifier::reject_recursive_types(V)]
#[verifier::reject_recursive_types(S)]
pub struct ExIndexMap<K, V, S>(IndexMap<K, V, S>);

/// The entries of a table, in their order.
pub uninterp spec fn entries(table: IndexMap<String, usize>) -> Seq<(Seq<char>, usize)>;

/// The place of the entry for a key, if there is one.
pub open spec fn place(table: Seq<(Seq<char>, usize)>, key: Seq<char>) -> Option<nat>
    decreases table.len(),
{
    if table.len() == 0 {
        None
    } else if table.first().0 == key {
        Some(0)
    } else {
        match place(table.drop_first(), key) {
            Some(i) => Some(i + 1),
            None => None,
        }
    }
}

/// The value that a table has for a key, if there is one.
pub open spec fn lookup(table: Seq<(Seq<char>, usize)>, key: Seq<char>) -> Option<usize> {
    match place(table, key) {
        Some(i) => Some(table[i as int].1),
        None => None,
    }
}

/// A table with a value for a key: in the place that the key has, or behind all
/// entries where it has none.
pub open spec fn with_entry(
    table: Seq<(Seq<char>, usize)>,
    key: Seq<char>,
    value: usize,
) -> Seq<(Seq<char>, usize)> {
    match place(table, key) {
        Some(i) => table.update(i as int, (table[i as int].0, value)),
        None => table.push((key, value)),
    }
}

/// A key has the place of its first entry, and none only if no entry has the key.
pub proof fn law_place_is_that_of_the_first_entry(table: Seq<(Seq<char>, usize)>, key: Seq<char>)
    ensures
        match place(table, key) {
            Some(i) => i < table.len() && table[i as int].0 == key && forall|j: int|
                0 <= j < i ==> (#[trigger] table[j]).0 != key,
            None => forall|j: int| 0 <= j < table.len() ==> (#[trigger] table[j]).0 != key,
        },
        lookup(table, key) is Some <==> place(table, key) is Some,
        place(table, key) matches Some(i) ==> lookup(table, key) == Some(table[i as int].1),
    decreases table.len(),
{
    if table.len() > 0 && table.first().0 != key {
        let rest = table.drop_first();
        law_place_is_that_of_the_first_entry(rest, key);
        assert forall|j: int| 0 <= j < rest.len() implies #[trigger] table[j + 1] == rest[j] by {}
        match place(table, key) {
            Some(i) => {
                assert forall|j: int| 0 <= j < i implies (#[trigger] table[j]).0 != key by {
                    if j > 0 {
                        assert(table[j] == rest[j - 1]);
                    }
                }
            },
            None => {
                assert forall|j: int| 0 <= j < table.len() implies (
                #[trigger] table[j]).0 != key by {
                    if j > 0 {
                        assert(table[j] == rest[j - 1]);
                    }
                }
            },
        }
    }
}

/// The place of a key is one of the table's, and its entry has that key.
pub proof fn lemma_place(table: Seq<(Seq<char>, usize)>, key: Seq<char>)
    ensures
        place(table, key) matches Some(i) ==> i < table.len() && table[i as int].0 == key,
    decreases table.len(),
{
    if table.len() > 0 && table.first().0 != key {
        lemma_place(table.drop_first(), key);
    }
}

/// A value is found under the key that it was inserted with.
pub proof fn law_inserted_is_found(table: Seq<(Seq<char>, usize)>, key: Seq<char>, value: usize)
    ensures
        lookup(with_entry(table, key, value), key) == Some(value),
{
    lemma_place(table, key);
    match place(table, key) {
        Some(i) => {
            let after = with_entry(table, key, value);
            lemma_same_keys(table, after, key);
        },
        None => lemma_place_push(table, (key, value), key),
    }
}

/// An insertion leaves the places and values of all other keys as they were.
pub proof fn law_other_entries_stay(
    table: Seq<(Seq<char>, usize)>,
    key: Seq<char>,
    value: usize,
    other: Seq<char>,
)
    requires
        other != key,
    ensures
        place(with_entry(table, key, value), other) == place(table, other),
        lookup(with_entry(table, key, value), other) == lookup(table, other),
{
    lemma_place(table, key);
    lemma_place(table, other);
    match place(table, key) {
        Some(i) => lemma_same_keys(table, with_entry(table, key, value), other),
        None => lemma_place_push(table, (key, value), other),
    }
}

/// An insertion under a key that a table has keeps the place of the key.
pub proof fn law_places_stay(table: Seq<(Seq<char>, usize)>, key: Seq<char>, value: usize)
    requires
        place(table, key) is Some,
    ensures
        place(with_entry(table, key, value), key) == place(table, key),
        with_entry(table, key, value).len() == table.len(),
{
    lemma_place(table, key);
    lemma_same_keys(table, with_entry(table, key, value), key);
}

/// The place of a key depends on the keys only.
proof fn lemma_same_keys(
    a: Seq<(Seq<char>, usize)>,
    b: Seq<(Seq<char>, usize)>,
    key: Seq<char>,
)
    requires
        a.len() == b.len(),
        forall|i: int| 0 <= i < a.len() ==> (#[trigger] a[i]).0 == b[i].0,
    ensures
        place(a, key) == place(b, key),
    decreases a.len(),
{
    if a.len() > 0 {
        assert(a[0].0 == b[0].0);
        assert forall|i: int| 0 <= i < a.drop_first().len() implies (
        #[trigger] a.drop_first()[i]).0 == b.drop_first()[i].0 by {
            assert(a[i + 1].0 == b[i + 1].0);
        }
        lemma_same_keys(a.drop_first(), b.drop_first(), key);
    }
}

/// The place of a key in a table with one more entry.
proof fn lemma_place_push(
    table: Seq<(Seq<char>, usize)>,
    entry: (Seq<char>, usize),
    key: Seq<char>,
)
    ensures
        place(table.push(entry), key) == (match place(table, key) {
            Some(i) => Some(i),
            None => if entry.0 == key {
                Some(table.len())
            } else {
                None
            },
        }),
    decreases table.len(),
{
    reveal_with_fuel(place, 2);
    if table.len() > 0 {
        assert(table.push(entry).drop_first() =~= table.drop_first().push(entry));
        lemma_place_push(table.drop_first(), entry, key);
    } else {
        assert(table.push(entry).drop_first() =~= Seq::empty());
    }
}

/// Calls `IndexMap::new`, which makes a table without entries.
#[verifier::external_body]
pub(crate) fn new_table() -> (r: IndexMap<String, usize>)
    ensures
        entries(r) == Seq::<(Seq<char>, usize)>::empty(),
{
    IndexMap::new()
}

/// Calls `IndexMap::insert`. A key that the table has keeps its place and gets
/// the new value; a key that it does not have goes to the end.
#[verifier::external_body]
pub(crate) fn insert(table: &mut IndexMap<String, usize>, key: String, value: usize)
    ensures
        entries(*final(table)) == with_entry(entries(*old(table)), key@, value),
{
    table.insert(key, value);
}

/// Calls `IndexMap::get`, which finds the value of a key. Since no key has two
/// entries, it is the value of the first entry with that key.
#[verifier::external_body]
pub(crate) fn get(table: &IndexMap<String, usize>, key: &str) -> (r: Option<usize>)
    ensures
        r == lookup(entries(*table), key@),
{
    table.get(key).copied()
}

/// Calls `IndexMap::get_index_of`, which finds the place of a key.
#[verifier::external_body]
pub(crate) fn get_index_of(table: &IndexMap<String, usize>, key: &str) -> (r: Option<usize>)
    ensures
        match r {
            Some(i) => place(entries(*table), key@) == Some(i as nat),
            None => place(entries(*table), key@) is None,
        },
{
    table.get_index_of(key)
}

/// Calls `IndexMap::get_index`, which gives the entry at a place; the value of
/// the entry is handed on.
#[verifier::external_body]
pub(crate) fn get_index(table: &IndexMap<String, usize>, index: usize) -> (r: Option<usize>)
    ensures
        r == (if index < entries(*table).len() {
            Some(entries(*table)[index as int].1)
        } else {
            None
        }),
{
    table.get_index(index).map(|entry| *entry.1)
}

} // verus!
