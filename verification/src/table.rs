//! Tables of rows with distinct keys, and the maps that they stand for.

use vstd::prelude::*;

verus! {

/// One row of a keyed table.
#[derive(Debug, PartialEq, Eq)]
pub struct Entry<K, V> {
    pub key: K,
    pub value: V,
}

/// Some row of `rows` has the key `key`.
pub open spec fn has_key<K, V>(rows: Seq<Entry<K, V>>, key: K) -> bool {
    exists|i: int| 0 <= i < rows.len() && (#[trigger] rows[i]).key == key
}

/// No key stands in two rows.
pub open spec fn unique_keys<K, V>(rows: Seq<Entry<K, V>>) -> bool {
    forall|i: int, j: int|
        0 <= i < rows.len() && 0 <= j < rows.len() && (#[trigger] rows[i]).key == (
        #[trigger] rows[j]).key ==> i == j
}

/// The row that holds `key`, where one does.
pub open spec fn index_of<K, V>(rows: Seq<Entry<K, V>>, key: K) -> int {
    choose|i: int| 0 <= i < rows.len() && (#[trigger] rows[i]).key == key
}

/// The table as a map from each key to its value.
pub open spec fn to_map<K, V>(rows: Seq<Entry<K, V>>) -> Map<K, V> {
    Map::new(|key: K| has_key(rows, key), |key: K| rows[index_of(rows, key)].value)
}

/// The keys of the table, in the order of its rows.
pub open spec fn keys<K, V>(rows: Seq<Entry<K, V>>) -> Seq<K> {
    rows.map_values(|row: Entry<K, V>| row.key)
}

/// In a table without repeated keys, the row at `i` is the row of its key.
pub proof fn lemma_row<K, V>(rows: Seq<Entry<K, V>>, i: int)
    requires
        unique_keys(rows),
        0 <= i < rows.len(),
    ensures
        has_key(rows, rows[i].key),
        index_of(rows, rows[i].key) == i,
        to_map(rows).contains_key(rows[i].key),
        to_map(rows)[rows[i].key] == rows[i].value,
{
    assert(has_key(rows, rows[i].key));
}

/// The map of a table has finitely many keys.
pub proof fn lemma_finite<K, V>(rows: Seq<Entry<K, V>>)
    ensures
        to_map(rows).dom().finite(),
{
    let ks = keys(rows);
    vstd::seq_lib::seq_to_set_is_finite(ks);
    assert forall|key: K| to_map(rows).dom().contains(key) <==> ks.to_set().contains(key) by {
        if has_key(rows, key) {
            let i = index_of(rows, key);
            assert(ks[i] == key);
        }
        if ks.to_set().contains(key) {
            let i = choose|i: int| 0 <= i < ks.len() && ks[i] == key;
            assert(rows[i].key == key);
        }
    }
    assert(to_map(rows).dom() =~= ks.to_set());
}

/// A row with a new key adds that key to the map.
pub proof fn lemma_push<K, V>(rows: Seq<Entry<K, V>>, row: Entry<K, V>)
    requires
        unique_keys(rows),
        !has_key(rows, row.key),
    ensures
        unique_keys(rows.push(row)),
        to_map(rows.push(row)) == to_map(rows).insert(row.key, row.value),
{
    let after = rows.push(row);
    assert forall|i: int, j: int|
        0 <= i < after.len() && 0 <= j < after.len() && (#[trigger] after[i]).key == (
        #[trigger] after[j]).key implies i == j by {
        if i < rows.len() {
            assert(after[i] == rows[i]);
        }
        if j < rows.len() {
            assert(after[j] == rows[j]);
        }
    }
    assert forall|key: K| has_key(after, key) <==> (key == row.key || has_key(rows, key)) by {
        if has_key(after, key) {
            let i = index_of(after, key);
            if i < rows.len() {
                assert(rows[i].key == key);
            }
        }
        if has_key(rows, key) {
            let i = index_of(rows, key);
            assert(after[i].key == key);
        }
        if key == row.key {
            assert(after[rows.len() as int].key == key);
        }
    }
    assert forall|key: K| has_key(after, key) implies #[trigger] to_map(after)[key] == to_map(
        rows,
    ).insert(row.key, row.value)[key] by {
        let i = index_of(after, key);
        if key == row.key {
            lemma_row(after, rows.len() as int);
        } else {
            let j = index_of(rows, key);
            assert(after[j] == rows[j]);
            lemma_row(after, j);
        }
    }
    assert(to_map(after) =~= to_map(rows).insert(row.key, row.value));
}

/// A new value in the row at `i` is a new value under that row's key.
pub proof fn lemma_update<K, V>(rows: Seq<Entry<K, V>>, i: int, value: V)
    requires
        unique_keys(rows),
        0 <= i < rows.len(),
    ensures
        unique_keys(rows.update(i, Entry { key: rows[i].key, value })),
        to_map(rows.update(i, Entry { key: rows[i].key, value })) == to_map(rows).insert(
            rows[i].key,
            value,
        ),
{
    let row = Entry { key: rows[i].key, value };
    let after = rows.update(i, row);
    assert forall|a: int| 0 <= a < rows.len() implies (#[trigger] after[a]).key == rows[a].key by {}
    assert forall|a: int, b: int|
        0 <= a < after.len() && 0 <= b < after.len() && (#[trigger] after[a]).key == (
        #[trigger] after[b]).key implies a == b by {
        assert(rows[a].key == rows[b].key);
    }
    assert forall|key: K| has_key(after, key) <==> has_key(rows, key) by {
        if has_key(after, key) {
            let a = index_of(after, key);
            assert(rows[a].key == key);
        }
        if has_key(rows, key) {
            let a = index_of(rows, key);
            assert(after[a].key == key);
        }
    }
    lemma_row(rows, i);
    assert forall|key: K| has_key(after, key) implies #[trigger] to_map(after)[key] == to_map(
        rows,
    ).insert(rows[i].key, value)[key] by {
        let a = index_of(after, key);
        lemma_row(after, a);
        lemma_row(rows, a);
    }
    assert(to_map(after) =~= to_map(rows).insert(rows[i].key, value));
}

/// Without the row at `i` the map is without that row's key.
pub proof fn lemma_remove<K, V>(rows: Seq<Entry<K, V>>, i: int)
    requires
        unique_keys(rows),
        0 <= i < rows.len(),
    ensures
        unique_keys(rows.remove(i)),
        !has_key(rows.remove(i), rows[i].key),
        to_map(rows.remove(i)) == to_map(rows).remove(rows[i].key),
{
    let after = rows.remove(i);
    assert forall|a: int| 0 <= a < after.len() implies #[trigger] after[a] == rows[if a < i {
        a
    } else {
        a + 1
    }] by {}
    assert forall|a: int, b: int|
        0 <= a < after.len() && 0 <= b < after.len() && (#[trigger] after[a]).key == (
        #[trigger] after[b]).key implies a == b by {
        let a0 = if a < i { a } else { a + 1 };
        let b0 = if b < i { b } else { b + 1 };
        assert(rows[a0].key == rows[b0].key);
    }
    assert forall|key: K| has_key(after, key) <==> (key != rows[i].key && has_key(rows, key)) by {
        if has_key(after, key) {
            let a = index_of(after, key);
            let a0 = if a < i { a } else { a + 1 };
            assert(rows[a0].key == key);
        }
        if key != rows[i].key && has_key(rows, key) {
            let a0 = index_of(rows, key);
            let a = if a0 < i { a0 } else { a0 - 1 };
            assert(after[a].key == key);
        }
    }
    assert forall|key: K| has_key(after, key) implies #[trigger] to_map(after)[key] == to_map(
        rows,
    ).remove(rows[i].key)[key] by {
        let a = index_of(after, key);
        let a0 = if a < i { a } else { a + 1 };
        lemma_row(after, a);
        lemma_row(rows, a0);
    }
    assert(to_map(after) =~= to_map(rows).remove(rows[i].key));
}

} // verus!
