//! Rows in a vector, read as a table by key.

use vstd::prelude::*;

use crate::model::{AccountModel, CommandKeyModel, CommandModel, PeriodModel};
use crate::text::Text;

verus! {

/// A row that says by itself under which key it stands.
pub trait Record: Sized {
    type Key;

    spec fn key_of(self) -> Self::Key;
}

impl Record for AccountModel {
    type Key = Text;

    open spec fn key_of(self) -> Text {
        self.account_id
    }
}

impl Record for PeriodModel {
    type Key = Text;

    open spec fn key_of(self) -> Text {
        self.period_id
    }
}

impl Record for CommandModel {
    type Key = CommandKeyModel;

    open spec fn key_of(self) -> CommandKeyModel {
        self.key
    }
}

/// Some row stands under `key`.
pub open spec fn has_key<R: Record>(rows: Seq<R>, key: R::Key) -> bool {
    exists|i: int| 0 <= i < rows.len() && (#[trigger] rows[i]).key_of() == key
}

/// No two rows stand under the same key.
pub open spec fn keys_distinct<R: Record>(rows: Seq<R>) -> bool {
    forall|i: int, j: int|
        0 <= i < rows.len() && 0 <= j < rows.len() && (#[trigger] rows[i]).key_of() == (
        #[trigger] rows[j]).key_of() ==> i == j
}

pub open spec fn row_of<R: Record>(rows: Seq<R>, key: R::Key) -> R {
    rows[choose|i: int| 0 <= i < rows.len() && (#[trigger] rows[i]).key_of() == key]
}

/// The rows by key.
pub open spec fn table<R: Record>(rows: Seq<R>) -> Map<R::Key, R> {
    Map::new(|key: R::Key| has_key(rows, key), |key: R::Key| row_of(rows, key))
}

pub proof fn lemma_table_get<R: Record>(rows: Seq<R>, i: int)
    requires
        keys_distinct(rows),
        0 <= i < rows.len(),
    ensures
        table(rows).contains_key(rows[i].key_of()),
        table(rows)[rows[i].key_of()] == rows[i],
{
}

pub proof fn lemma_table_finite<R: Record>(rows: Seq<R>)
    ensures
        table(rows).dom().finite(),
{
    let keys = Seq::new(rows.len(), |i: int| rows[i].key_of());
    vstd::seq_lib::seq_to_set_is_finite(keys);
    assert(table(rows).dom() =~= keys.to_set()) by {
        assert forall|key: R::Key| #[trigger] table(rows).dom().contains(key) <==> keys.contains(
            key,
        ) by {
            if has_key(rows, key) {
                let i = choose|i: int| 0 <= i < rows.len() && (#[trigger] rows[i]).key_of() == key;
                assert(keys[i] == key);
            }
            if keys.contains(key) {
                let i = choose|i: int| 0 <= i < keys.len() && keys[i] == key;
                assert(rows[i].key_of() == key);
            }
        }
    }
}

pub proof fn lemma_table_push<R: Record>(rows: Seq<R>, row: R)
    requires
        keys_distinct(rows),
        !has_key(rows, row.key_of()),
    ensures
        keys_distinct(rows.push(row)),
        table(rows.push(row)) == table(rows).insert(row.key_of(), row),
{
    let after = rows.push(row);
    assert(keys_distinct(after)) by {
        assert forall|i: int, j: int|
            0 <= i < after.len() && 0 <= j < after.len() && (#[trigger] after[i]).key_of() == (
            #[trigger] after[j]).key_of() implies i == j by {
            if i < rows.len() && j == rows.len() {
                assert(rows[i].key_of() == row.key_of());
            }
            if j < rows.len() && i == rows.len() {
                assert(rows[j].key_of() == row.key_of());
            }
        }
    }
    let want = table(rows).insert(row.key_of(), row);
    assert forall|key: R::Key| has_key(after, key) == want.contains_key(key) by {
        if has_key(rows, key) {
            let i = choose|i: int| 0 <= i < rows.len() && (#[trigger] rows[i]).key_of() == key;
            assert(after[i].key_of() == key);
        }
        if key == row.key_of() {
            assert(after[rows.len() as int].key_of() == key);
        }
    }
    assert forall|key: R::Key| #[trigger] want.contains_key(key) implies table(after)[key]
        == want[key] by {
        assert(has_key(after, key));
        let i = choose|i: int| 0 <= i < after.len() && (#[trigger] after[i]).key_of() == key;
        lemma_table_get(after, i);
        if i < rows.len() {
            assert(after[i] == rows[i]);
            lemma_table_get(rows, i);
            assert(rows[i].key_of() != row.key_of());
        }
    }
    assert(table(after) =~= want);
}

/// Rows that keep their keys one by one keep the table's keys, and hold its new rows.
pub proof fn lemma_table_replace<R: Record>(rows: Seq<R>, after: Seq<R>)
    requires
        keys_distinct(rows),
        after.len() == rows.len(),
        forall|i: int|
            0 <= i < rows.len() ==> (#[trigger] after[i]).key_of() == rows[i].key_of(),
    ensures
        keys_distinct(after),
        forall|key: R::Key| #[trigger] has_key(after, key) == has_key(rows, key),
        forall|i: int|
            0 <= i < rows.len() ==> table(after)[(#[trigger] rows[i]).key_of()] == after[i],
{
    assert(keys_distinct(after)) by {
        assert forall|i: int, j: int|
            0 <= i < after.len() && 0 <= j < after.len() && (#[trigger] after[i]).key_of() == (
            #[trigger] after[j]).key_of() implies i == j by {
            assert(rows[i].key_of() == rows[j].key_of());
        }
    }
    assert forall|key: R::Key| #[trigger] has_key(after, key) == has_key(rows, key) by {
        if has_key(rows, key) {
            let i = choose|i: int| 0 <= i < rows.len() && (#[trigger] rows[i]).key_of() == key;
            assert(after[i].key_of() == key);
        }
        if has_key(after, key) {
            let i = choose|i: int| 0 <= i < after.len() && (#[trigger] after[i]).key_of() == key;
            assert(rows[i].key_of() == key);
        }
    }
    assert forall|i: int| 0 <= i < rows.len() implies table(after)[(
    #[trigger] rows[i]).key_of()] == after[i] by {
        assert(after[i].key_of() == rows[i].key_of());
        lemma_table_get(after, i);
    }
}

pub proof fn lemma_table_update<R: Record>(rows: Seq<R>, i: int, row: R)
    requires
        keys_distinct(rows),
        0 <= i < rows.len(),
        row.key_of() == rows[i].key_of(),
    ensures
        keys_distinct(rows.update(i, row)),
        table(rows.update(i, row)) == table(rows).insert(row.key_of(), row),
{
    let after = rows.update(i, row);
    lemma_table_replace(rows, after);
    let want = table(rows).insert(row.key_of(), row);
    assert forall|key: R::Key| has_key(after, key) == want.contains_key(key) by {
        if key == row.key_of() {
            assert(rows[i].key_of() == key);
        }
        assert(has_key(after, key) == has_key(rows, key));
    }
    assert forall|key: R::Key| #[trigger] want.contains_key(key) implies table(after)[key]
        == want[key] by {
        assert(has_key(after, key));
        assert(has_key(rows, key));
        let j = choose|j: int| 0 <= j < rows.len() && (#[trigger] rows[j]).key_of() == key;
        lemma_table_get(rows, j);
        assert(table(after)[rows[j].key_of()] == after[j]);
        if j != i {
            assert(rows[j].key_of() != row.key_of());
        }
    }
    assert(table(after) =~= want);
}

} // verus!
