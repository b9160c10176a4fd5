//! What the statement that inserts a batch does to the rows of a table.
use crate::importer::sql::{
    assignment, change_test, insert_prefix, insert_statement, law_conflicts_assign_no_key,
    mutable_columns, quoted, selection,
};
use crate::number::decimal;
use crate::pieces::{join, replace_char};
use vstd::prelude::*;
use vstd::string::*;

verus! {

// ---------------------------------------------------------------------------
// Statements and what they mean
// ---------------------------------------------------------------------------
/// A row of a table: the value of each column, or null.
pub type Stored = spec_fn(Seq<char>) -> Option<Seq<char>>;

/// A condition on a row that is there and the row that conflicts with it.
pub enum Condition {
    /// The two differ in a column; null differs from every other value.
    Changed(Seq<char>),
    Either(Box<Condition>, Box<Condition>),
    Both(Box<Condition>, Box<Condition>),
}

/// A name as SQL writes it: in double quotes, each quote of the name twice.
pub open spec fn name_text(name: Seq<char>) -> Seq<char> {
    seq!['"'] + replace_char(name, '"', seq!['"', '"']) + seq!['"']
}

/// The condition as SQL writes it.
pub open spec fn condition_text(condition: Condition, table: Seq<char>) -> Seq<char>
    decreases condition,
{
    match condition {
        Condition::Changed(column) => name_text(table) + "."@ + name_text(column)
            + " IS NOT excluded."@ + name_text(column),
        Condition::Either(one, other) => condition_text(*one, table) + " OR "@ + condition_text(
            *other,
            table,
        ),
        Condition::Both(one, other) => condition_text(*one, table) + " AND "@ + condition_text(
            *other,
            table,
        ),
    }
}

/// The condition holds of a row that is there and a new one.
pub open spec fn applies(condition: Condition, old_row: Stored, new_row: Stored) -> bool
    decreases condition,
{
    match condition {
        Condition::Changed(column) => old_row(column) != new_row(column),
        Condition::Either(one, other) => applies(*one, old_row, new_row) || applies(
            *other,
            old_row,
            new_row,
        ),
        Condition::Both(one, other) => applies(*one, old_row, new_row) && applies(
            *other,
            old_row,
            new_row,
        ),
    }
}

/// A statement that inserts rows, and what it does with a row that is there.
pub struct Upsert {
    pub table: Seq<char>,
    /// The columns that get values, and the position in the JSON row of each value.
    pub columns: Seq<Seq<char>>,
    pub positions: Seq<nat>,
    /// The columns that take the values of the new row, and when they do; `None` where
    /// a row that is there stays.
    pub update: Option<(Seq<Seq<char>>, Condition)>,
}

/// The statement as SQL writes it.
pub open spec fn upsert_text(upsert: Upsert) -> Seq<char> {
    "INSERT INTO "@ + name_text(upsert.table) + " ("@ + join(
        upsert.columns.map_values(|c: Seq<char>| name_text(c)),
        ", "@,
    ) + ") SELECT "@ + join(
        upsert.positions.map_values(
            |n: nat| "json_extract(value, '$["@ + decimal(n) + "]')"@,
        ),
        ", "@,
    ) + " FROM json_each(?) WHERE TRUE ON CONFLICT DO "@ + match upsert.update {
        None => "NOTHING"@,
        Some((set, condition)) => "UPDATE SET "@ + join(
            set.map_values(|c: Seq<char>| name_text(c) + " = excluded."@ + name_text(c)),
            ", "@,
        ) + " WHERE "@ + condition_text(condition, upsert.table),
    }
}

/// The row that is there after the statement, where a new one conflicts with it.
pub open spec fn after_conflict(upsert: Upsert, old_row: Stored, new_row: Stored) -> Stored {
    match upsert.update {
        None => old_row,
        Some((set, condition)) => if applies(condition, old_row, new_row) {
            |column: Seq<char>|
                if set.contains(column) {
                    new_row(column)
                } else {
                    old_row(column)
                }
        } else {
            old_row
        },
    }
}

/// Some column of a list differs that is no key.
pub open spec fn has_changed(
    columns: Seq<Seq<char>>,
    keys: Seq<Seq<char>>,
    old_row: Stored,
    new_row: Stored,
) -> bool {
    exists|i: int|
        0 <= i < columns.len() && !keys.contains(columns[i]) && old_row(#[trigger] columns[i])
            != new_row(columns[i])
}

/// The two rows have the same keys.
pub open spec fn same_keys(keys: Seq<Seq<char>>, old_row: Stored, new_row: Stored) -> bool {
    forall|k: int|
        0 <= k < keys.len() ==> old_row(#[trigger] keys[k]) == new_row(keys[k])
}

// ---------------------------------------------------------------------------
// Laws
// ---------------------------------------------------------------------------
proof fn lemma_names_are_quoted()
    ensures
        forall|name: Seq<char>| #[trigger] quoted(name) == name_text(name),
{
    reveal_strlit("\"");
    assert("\""@ =~= seq!['"']);
}

/// That any of some columns changed.
spec fn any_changed(columns: Seq<Seq<char>>) -> Condition
    decreases columns.len(),
{
    if columns.len() <= 1 {
        Condition::Changed(columns[0])
    } else {
        Condition::Either(
            Box::new(any_changed(columns.drop_last())),
            Box::new(Condition::Changed(columns.last())),
        )
    }
}

proof fn lemma_any_changed(columns: Seq<Seq<char>>, table: Seq<char>)
    requires
        columns.len() > 0,
    ensures
        condition_text(any_changed(columns), table) == join(
            columns.map_values(|c: Seq<char>| change_test(table, c)),
            " OR "@,
        ),
        forall|old_row: Stored, new_row: Stored| #[trigger]
            applies(any_changed(columns), old_row, new_row) <==> exists|i: int|
                0 <= i < columns.len() && old_row(#[trigger] columns[i]) != new_row(columns[i]),
    decreases columns.len(),
{
    lemma_names_are_quoted();
    let tests = columns.map_values(|c: Seq<char>| change_test(table, c));
    if columns.len() == 1 {
        assert(tests.len() == 1 && tests[0] == change_test(table, columns[0]));
        assert forall|old_row: Stored, new_row: Stored| #[trigger]
            applies(any_changed(columns), old_row, new_row) <==> exists|i: int|
                0 <= i < columns.len() && old_row(#[trigger] columns[i]) != new_row(columns[i]) by {
            if applies(any_changed(columns), old_row, new_row) {
                assert(old_row(columns[0]) != new_row(columns[0]));
            }
        }
    } else {
        let front = columns.drop_last();
        lemma_any_changed(front, table);
        assert(tests.drop_last() =~= front.map_values(|c: Seq<char>| change_test(table, c)));
        assert(tests.last() == change_test(table, columns.last()));
        let last = Condition::Changed(columns.last());
        assert(condition_text(last, table) == change_test(table, columns.last()));
        assert forall|old_row: Stored, new_row: Stored| #[trigger]
            applies(any_changed(columns), old_row, new_row) <==> exists|i: int|
                0 <= i < columns.len() && old_row(#[trigger] columns[i]) != new_row(columns[i]) by {
            assert(applies(any_changed(columns), old_row, new_row) == (applies(
                any_changed(front),
                old_row,
                new_row,
            ) || applies(last, old_row, new_row)));
            if applies(any_changed(front), old_row, new_row) {
                let i = choose|i: int|
                    0 <= i < front.len() && old_row(#[trigger] front[i]) != new_row(front[i]);
                assert(old_row(columns[i]) != new_row(columns[i]));
            }
            if applies(last, old_row, new_row) {
                let i = columns.len() - 1;
                assert(old_row(columns[i]) != new_row(columns[i]));
            }
            if exists|i: int|
                0 <= i < columns.len() && old_row(#[trigger] columns[i]) != new_row(columns[i]) {
                let i = choose|i: int|
                    0 <= i < columns.len() && old_row(#[trigger] columns[i]) != new_row(columns[i]);
                if i < front.len() {
                    assert(old_row(front[i]) != new_row(front[i]));
                }
            }
        }
    }
}

/// Upserts keep the table up to date and write no more than that. The statement that
/// inserts rows is an upsert of the given columns, each with the value at its own
/// position of the JSON row. A row that is there is updated exactly where a column that
/// is no key differs from the new row; afterwards it equals the new row in all the
/// columns, and is as it was in all others.
pub proof fn law_upserts_update_what_changed(
    table: Seq<char>,
    columns: Seq<Seq<char>>,
    keys: Seq<Seq<char>>,
) -> (upsert: Upsert)
    ensures
        insert_statement(table, columns, keys) == upsert_text(upsert),
        upsert.table == table,
        upsert.columns == columns,
        upsert.positions == Seq::new(columns.len(), |i: int| i as nat),
        upsert.update is None <==> forall|i: int|
            0 <= i < columns.len() ==> keys.contains(#[trigger] columns[i]),
        upsert.update matches Some((set, condition)) ==> forall|old_row: Stored, new_row: Stored| #[trigger]
            applies(condition, old_row, new_row) <==> has_changed(columns, keys, old_row, new_row),
        forall|old_row: Stored, new_row: Stored, column: Seq<char>|
            same_keys(keys, old_row, new_row) && columns.contains(column) ==> #[trigger]
            after_conflict(upsert, old_row, new_row)(column) == new_row(column),
        forall|old_row: Stored, new_row: Stored, column: Seq<char>|
            !columns.contains(column) || keys.contains(column) ==> #[trigger] after_conflict(
                upsert,
                old_row,
                new_row,
            )(column) == old_row(column),
{
    let mutable = mutable_columns(columns, keys);
    let upsert = Upsert {
        table,
        columns,
        positions: Seq::new(columns.len(), |i: int| i as nat),
        update: if mutable.len() == 0 {
            None
        } else {
            Some((mutable, any_changed(mutable)))
        },
    };
    lemma_names_are_quoted();
    law_conflicts_assign_no_key(columns, keys);
    assert(columns.map_values(|c: Seq<char>| quoted(c)) =~= columns.map_values(
        |c: Seq<char>| name_text(c),
    ));
    assert(Seq::new(columns.len(), |i: int| selection(i)) =~= upsert.positions.map_values(
        |n: nat| "json_extract(value, '$["@ + decimal(n) + "]')"@,
    ));
    assert(mutable.map_values(|c: Seq<char>| assignment(c)) =~= mutable.map_values(
        |c: Seq<char>| name_text(c) + " = excluded."@ + name_text(c),
    ));
    let prefix = insert_prefix(table, columns);
    if mutable.len() == 0 {
        assert(insert_statement(table, columns, keys) =~= upsert_text(upsert));
        assert forall|i: int| 0 <= i < columns.len() implies keys.contains(
            #[trigger] columns[i],
        ) by {
            assert(columns.contains(columns[i]));
            if !keys.contains(columns[i]) {
                assert(mutable.contains(columns[i]));
            }
        }
    } else {
        lemma_any_changed(mutable, table);
        assert(insert_statement(table, columns, keys) =~= upsert_text(upsert));
        assert(mutable.contains(mutable[0]));
        let first = choose|i: int| 0 <= i < columns.len() && columns[i] == mutable[0];
        assert(!keys.contains(columns[first]));
    }
    assert forall|old_row: Stored, new_row: Stored|
        mutable.len() > 0 implies #[trigger] applies(any_changed(mutable), old_row, new_row)
        <==> has_changed(columns, keys, old_row, new_row) by {
        if applies(any_changed(mutable), old_row, new_row) {
            let k = choose|k: int|
                0 <= k < mutable.len() && old_row(#[trigger] mutable[k]) != new_row(mutable[k]);
            assert(mutable.contains(mutable[k]));
            let i = choose|i: int| 0 <= i < columns.len() && columns[i] == mutable[k];
            assert(old_row(columns[i]) != new_row(columns[i]));
        }
        if has_changed(columns, keys, old_row, new_row) {
            let i = choose|i: int|
                0 <= i < columns.len() && !keys.contains(columns[i]) && old_row(
                    #[trigger] columns[i],
                ) != new_row(columns[i]);
            assert(columns.contains(columns[i]));
            assert(mutable.contains(columns[i]));
            let k = choose|k: int| 0 <= k < mutable.len() && mutable[k] == columns[i];
            assert(old_row(mutable[k]) != new_row(mutable[k]));
        }
    }
    assert forall|old_row: Stored, new_row: Stored, column: Seq<char>|
        same_keys(keys, old_row, new_row) && columns.contains(column) implies #[trigger]
    after_conflict(upsert, old_row, new_row)(column) == new_row(column) by {
        if keys.contains(column) {
            let k = choose|k: int| 0 <= k < keys.len() && keys[k] == column;
            assert(old_row(keys[k]) == new_row(keys[k]));
        } else {
            assert(mutable.contains(column));
            if old_row(column) != new_row(column) {
                let i = choose|i: int| 0 <= i < columns.len() && columns[i] == column;
                assert(old_row(columns[i]) != new_row(columns[i]));
                assert(has_changed(columns, keys, old_row, new_row));
            }
        }
    }
    assert forall|old_row: Stored, new_row: Stored, column: Seq<char>|
        !columns.contains(column) || keys.contains(column) implies #[trigger] after_conflict(
        upsert,
        old_row,
        new_row,
    )(column) == old_row(column) by {
        assert(!mutable.contains(column));
    }
    upsert
}

/// A name keeps all its characters: between its quotes, it can be read back.
pub proof fn law_names_can_be_read_back(name: Seq<char>)
    ensures
        name_text(name)[0] == '"',
        name_text(name).last() == '"',
        unquoted(name_text(name).subrange(1, name_text(name).len() - 1)) == name,
    decreases name.len(),
{
    let inner = replace_char(name, '"', seq!['"', '"']);
    assert(name_text(name).subrange(1, name_text(name).len() - 1) =~= inner);
    if name.len() > 0 {
        law_names_can_be_read_back(name.drop_last());
        let front = replace_char(name.drop_last(), '"', seq!['"', '"']);
        assert(name_text(name.drop_last()).subrange(1, name_text(name.drop_last()).len() - 1)
            =~= front);
        if name.last() == '"' {
            assert(inner.drop_last().drop_last() =~= front);
        } else {
            assert(inner.drop_last() =~= front);
        }
        assert(name =~= name.drop_last().push(name.last()));
    }
}

/// A text whose doubled quotes are single ones again, read from its end.
pub open spec fn unquoted(text: Seq<char>) -> Seq<char>
    decreases text.len(),
{
    if text.len() == 0 {
        seq![]
    } else if text.last() == '"' && text.len() > 1 {
        unquoted(text.drop_last().drop_last()).push('"')
    } else {
        unquoted(text.drop_last()).push(text.last())
    }
}

/// The columns that may change are those that are no keys, in order.
pub proof fn law_keys_do_not_change(columns: Seq<Seq<char>>, keys: Seq<Seq<char>>)
    ensures
        mutable_columns(columns, keys) == columns.filter(|c: Seq<char>| !keys.contains(c)),
    decreases columns.len(),
{
    reveal(Seq::filter);
    if columns.len() > 0 {
        law_keys_do_not_change(columns.drop_last(), keys);
    } else {
        assert(mutable_columns(columns, keys) =~= columns.filter(
            |c: Seq<char>| !keys.contains(c),
        ));
    }
}

} // verus!
