//! Rows that are kept by a key: how a sequence of rows without a repeated
//! key reads as a map, and what an update or a new row does to that map.

use vstd::prelude::*;

verus! {

/// A row with a key, under which it is found, and a value.
pub trait Row: Sized {
    /// What a row is looked up by at run time.
    type Name;

    /// The key as contracts see it.
    type Key;

    /// What the row holds beside its key.
    type Value;

    /// The row's key.
    spec fn key(&self) -> Self::Key;

    /// The row's value.
    spec fn value(&self) -> Self::Value;

    /// The key that a name stands for.
    spec fn key_of(name: &Self::Name) -> Self::Key;

    /// Whether the row is the one that `name` names.
    fn is_named(&self, name: &Self::Name) -> (yes: bool)
        ensures
            yes == (self.key() == Self::key_of(name)),
    ;
}

/// No two rows share a key.
pub open spec fn distinct<R: Row>(rows: Seq<R>) -> bool {
    forall|i: int, j: int| 0 <= i < j < rows.len() ==> rows[i].key() != rows[j].key()
}

/// There is a row with this key.
pub open spec fn holds<R: Row>(rows: Seq<R>, key: R::Key) -> bool {
    exists|i: int| 0 <= i < rows.len() && rows[i].key() == key
}

/// Where the row with this key stands.
pub open spec fn place<R: Row>(rows: Seq<R>, key: R::Key) -> int {
    choose|i: int| 0 <= i < rows.len() && rows[i].key() == key
}

/// The rows as a map from key to value.
pub open spec fn table<R: Row>(rows: Seq<R>) -> Map<R::Key, R::Value> {
    Map::new(|key: R::Key| holds(rows, key), |key: R::Key| rows[place(rows, key)].value())
}

/// The row at `i` is the one found under its key.
pub proof fn lemma_row<R: Row>(rows: Seq<R>, i: int)
    requires
        distinct(rows),
        0 <= i < rows.len(),
    ensures
        holds(rows, rows[i].key()),
        place(rows, rows[i].key()) == i,
        table(rows).contains_key(rows[i].key()),
        table(rows)[rows[i].key()] == rows[i].value(),
{
    let key = rows[i].key();
    assert(holds(rows, key));
    let k = place(rows, key);
    assert(0 <= k < rows.len() && rows[k].key() == key);
    if k < i {
        assert(rows[k].key() != rows[i].key());
    } else if i < k {
        assert(rows[i].key() != rows[k].key());
    }
}

/// When `after` has the keys of `rows` and the key of `row` and no others,
/// its map has the keys of the map of `rows` with that of `row` put in.
proof fn lemma_same_keys<R: Row>(rows: Seq<R>, after: Seq<R>, row: R)
    requires
        forall|k: int| 0 <= k < after.len() ==> holds(rows, #[trigger] after[k].key())
            || after[k].key() == row.key(),
        forall|k: int| 0 <= k < rows.len() ==> holds(after, #[trigger] rows[k].key()),
        holds(after, row.key()),
    ensures
        table(after).dom() == table(rows).insert(row.key(), row.value()).dom(),
{
    let want = table(rows).insert(row.key(), row.value());
    assert forall|key: R::Key| table(after).contains_key(key) <==> want.contains_key(key) by {
        if holds(after, key) {
            let k = place(after, key);
            assert(holds(rows, after[k].key()) || after[k].key() == row.key());
        }
        if holds(rows, key) {
            let k = place(rows, key);
            assert(holds(after, rows[k].key()));
        }
    }
    assert(table(after).dom() =~= want.dom());
}

/// Putting `row` in the place of a row with the same key gives the key
/// the new value and leaves the other keys alone.
pub proof fn lemma_update<R: Row>(rows: Seq<R>, i: int, row: R)
    requires
        distinct(rows),
        0 <= i < rows.len(),
        row.key() == rows[i].key(),
    ensures
        distinct(rows.update(i, row)),
        table(rows.update(i, row)) == table(rows).insert(row.key(), row.value()),
{
    let after = rows.update(i, row);
    assert forall|a: int, b: int| 0 <= a < b < after.len() implies after[a].key()
        != after[b].key() by {
        assert(rows[a].key() != rows[b].key());
    }
    assert forall|k: int| 0 <= k < after.len() implies holds(rows, #[trigger] after[k].key())
        || after[k].key() == row.key() by {
        assert(rows[k].key() == after[k].key());
    }
    assert forall|k: int| 0 <= k < rows.len() implies holds(after, #[trigger] rows[k].key()) by {
        assert(after[k].key() == rows[k].key());
    }
    assert(after[i].key() == row.key());
    lemma_same_keys(rows, after, row);
    let want = table(rows).insert(row.key(), row.value());
    assert forall|key: R::Key| table(after).contains_key(key) implies table(after)[key]
        == want[key] by {
        let k = place(after, key);
        lemma_row(after, k);
        lemma_row(rows, k);
    }
    assert(table(after) =~= want);
}

/// A row with a key that no row has adds that key with its value and leaves
/// the other keys alone.
pub proof fn lemma_push<R: Row>(rows: Seq<R>, row: R)
    requires
        distinct(rows),
        !holds(rows, row.key()),
    ensures
        distinct(rows.push(row)),
        table(rows.push(row)) == table(rows).insert(row.key(), row.value()),
{
    let after = rows.push(row);
    assert forall|a: int, b: int| 0 <= a < b < after.len() implies after[a].key()
        != after[b].key() by {
        if b == rows.len() {
            assert(rows[a].key() != row.key());
        } else {
            assert(rows[a].key() != rows[b].key());
        }
    }
    assert forall|k: int| 0 <= k < after.len() implies holds(rows, #[trigger] after[k].key())
        || after[k].key() == row.key() by {
        if k < rows.len() {
            assert(rows[k].key() == after[k].key());
        }
    }
    assert forall|k: int| 0 <= k < rows.len() implies holds(after, #[trigger] rows[k].key()) by {
        assert(after[k].key() == rows[k].key());
    }
    assert(after[rows.len() as int].key() == row.key());
    lemma_same_keys(rows, after, row);
    let want = table(rows).insert(row.key(), row.value());
    assert forall|key: R::Key| table(after).contains_key(key) implies table(after)[key]
        == want[key] by {
        let k = place(after, key);
        lemma_row(after, k);
        if k < rows.len() {
            lemma_row(rows, k);
        }
    }
    assert(table(after) =~= want);
}

/// There are as many keys as rows.
pub proof fn lemma_count<R: Row>(rows: Seq<R>)
    requires
        distinct(rows),
    ensures
        table(rows).dom().finite(),
        table(rows).dom().len() == rows.len(),
    decreases rows.len(),
{
    if rows.len() == 0 {
        assert(table(rows).dom() =~= Set::<R::Key>::empty());
    } else {
        let front = rows.drop_last();
        let row = rows.last();
        assert forall|a: int, b: int| 0 <= a < b < front.len() implies front[a].key()
            != front[b].key() by {
            assert(rows[a].key() != rows[b].key());
        }
        if holds(front, row.key()) {
            let k = place(front, row.key());
            assert(rows[k].key() != rows[rows.len() - 1].key());
        }
        lemma_count(front);
        lemma_push(front, row);
        assert(front.push(row) =~= rows);
        assert(table(rows).dom() =~= table(front).dom().insert(row.key()));
        assert(!table(front).dom().contains(row.key()));
    }
}

/// Where the row that `name` names stands, if there is one.
pub fn find<R: Row>(rows: &Vec<R>, name: &R::Name) -> (at: Option<usize>)
    ensures
        match at {
            Some(i) => i < rows.len() && rows[i as int].key() == R::key_of(name),
            None => !holds(rows@, R::key_of(name)),
        },
{
    let mut i: usize = 0;
    while i < rows.len()
        invariant
            i <= rows.len(),
            forall|k: int| 0 <= k < i ==> rows[k].key() != R::key_of(name),
        decreases rows.len() - i,
    {
        if rows[i].is_named(name) {
            return Some(i);
        }
        i += 1;
    }
    None
}

} // verus!
