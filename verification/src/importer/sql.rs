//! The statement that inserts one batch of JSON rows.
use crate::number::{decimal, push_decimal};
use crate::pieces::{join, join_texts, replace_char, replaced_char};
use crate::text::{chars_of, contains_text, push_chars, texts};
use vstd::prelude::*;
use vstd::string::*;

verus! {

/// A name in double quotes, with the quotes inside it doubled.
pub open spec fn quoted(identifier: Seq<char>) -> Seq<char> {
    "\""@ + replace_char(identifier, '"', seq!['"', '"']) + "\""@
}

/// Puts a name in double quotes and doubles the quotes inside it.
pub fn quote_identifier(identifier: &str) -> (quoted_name: String)
    ensures
        quoted_name@ == quoted(identifier@),
{
    let doubled: Vec<char> = vec!['"', '"'];
    let inner = replaced_char(chars_of(identifier).as_slice(), '"', doubled.as_slice());
    assert(doubled@ =~= seq!['"', '"']);
    let mut out = "\"".to_owned();
    push_chars(&mut out, inner.as_slice());
    out.append("\"");
    out
}

/// The columns that are no keys, in order.
pub open spec fn mutable_columns(columns: Seq<Seq<char>>, keys: Seq<Seq<char>>) -> Seq<Seq<char>>
    decreases columns.len(),
{
    if columns.len() == 0 {
        seq![]
    } else {
        let front = mutable_columns(columns.drop_last(), keys);
        if keys.contains(columns.last()) {
            front
        } else {
            front.push(columns.last())
        }
    }
}

/// The value at an index of the JSON row.
pub open spec fn selection(index: int) -> Seq<char> {
    "json_extract(value, '$["@ + decimal(index as nat) + "]')"@
}

/// The column takes the new value.
pub open spec fn assignment(column: Seq<char>) -> Seq<char> {
    quoted(column) + " = excluded."@ + quoted(column)
}

/// The column differs from the new value, null-safely.
pub open spec fn change_test(table: Seq<char>, column: Seq<char>) -> Seq<char> {
    quoted(table) + "."@ + quoted(column) + " IS NOT excluded."@ + quoted(column)
}

/// The statement up to the word `DO`: it selects the columns from the rows of a
/// JSON array, position by position.
pub open spec fn insert_prefix(table: Seq<char>, columns: Seq<Seq<char>>) -> Seq<char> {
    "INSERT INTO "@ + quoted(table) + " ("@ + join(columns.map_values(|c: Seq<char>| quoted(c)), ", "@)
        + ") SELECT "@ + join(Seq::new(columns.len(), |i: int| selection(i)), ", "@)
        + " FROM json_each(?) WHERE TRUE ON CONFLICT DO "@
}

/// The statement that inserts the rows of a JSON array. A row that is already
/// there is updated where a column that is no key changes, and left alone where
/// there is no such column.
pub open spec fn insert_statement(
    table: Seq<char>,
    columns: Seq<Seq<char>>,
    keys: Seq<Seq<char>>,
) -> Seq<char> {
    let mutable = mutable_columns(columns, keys);
    if mutable.len() == 0 {
        insert_prefix(table, columns) + "NOTHING"@
    } else {
        insert_prefix(table, columns) + "UPDATE SET "@ + join(
            mutable.map_values(|c: Seq<char>| assignment(c)),
            ", "@,
        ) + " WHERE "@ + join(mutable.map_values(|c: Seq<char>| change_test(table, c)), " OR "@)
    }
}

fn quoted_columns(columns: &Vec<String>) -> (list: Vec<String>)
    ensures
        texts(list@) == texts(columns@).map_values(|c: Seq<char>| quoted(c)),
{
    let mut list: Vec<String> = Vec::new();
    let mut i: usize = 0;
    while i < columns.len()
        invariant
            i <= columns@.len(),
            list@.len() == i,
            forall|k: int| 0 <= k < i ==> (#[trigger] list@[k])@ == quoted(columns@[k]@),
        decreases columns.len() - i,
    {
        list.push(quote_identifier(columns[i].as_str()));
        i += 1;
    }
    assert(texts(list@) =~= texts(columns@).map_values(|c: Seq<char>| quoted(c)));
    list
}

fn selections(count: usize) -> (list: Vec<String>)
    ensures
        texts(list@) == Seq::new(count as nat, |i: int| selection(i)),
{
    let mut list: Vec<String> = Vec::new();
    let mut i: usize = 0;
    while i < count
        invariant
            i <= count,
            list@.len() == i,
            forall|k: int| 0 <= k < i ==> (#[trigger] list@[k])@ == selection(k),
        decreases count - i,
    {
        let mut item = "json_extract(value, '$[".to_owned();
        push_decimal(&mut item, i as u128);
        item.append("]')");
        list.push(item);
        i += 1;
    }
    assert(texts(list@) =~= Seq::new(count as nat, |i: int| selection(i)));
    list
}

/// The columns of a list that are no keys.
fn without_keys(columns: &Vec<String>, keys: &Vec<String>) -> (list: Vec<String>)
    ensures
        texts(list@) == mutable_columns(texts(columns@), texts(keys@)),
{
    let mut list: Vec<String> = Vec::new();
    let mut i: usize = 0;
    while i < columns.len()
        invariant
            i <= columns@.len(),
            texts(list@) == mutable_columns(texts(columns@.take(i as int)), texts(keys@)),
        decreases columns.len() - i,
    {
        let ghost so_far = texts(columns@.take(i + 1));
        assert(so_far.drop_last() =~= texts(columns@.take(i as int)));
        assert(so_far.last() == columns@[i as int]@);
        let ghost before = list@;
        if !contains_text(keys, columns[i].as_str()) {
            let column = columns[i].clone();
            list.push(column);
            assert(texts(list@) =~= texts(before).push(column@));
        }
        i += 1;
    }
    assert(columns@.take(columns@.len() as int) =~= columns@);
    list
}

fn assignments(columns: &Vec<String>) -> (list: Vec<String>)
    ensures
        texts(list@) == texts(columns@).map_values(|c: Seq<char>| assignment(c)),
{
    let mut list: Vec<String> = Vec::new();
    let mut i: usize = 0;
    while i < columns.len()
        invariant
            i <= columns@.len(),
            list@.len() == i,
            forall|k: int| 0 <= k < i ==> (#[trigger] list@[k])@ == assignment(columns@[k]@),
        decreases columns.len() - i,
    {
        let name = quote_identifier(columns[i].as_str());
        let mut item = name.clone();
        item.append(" = excluded.");
        item.append(name.as_str());
        list.push(item);
        i += 1;
    }
    assert(texts(list@) =~= texts(columns@).map_values(|c: Seq<char>| assignment(c)));
    list
}

fn change_tests(table_name: &str, columns: &Vec<String>) -> (list: Vec<String>)
    ensures
        texts(list@) == texts(columns@).map_values(|c: Seq<char>| change_test(table_name@, c)),
{
    let table = quote_identifier(table_name);
    let mut list: Vec<String> = Vec::new();
    let mut i: usize = 0;
    while i < columns.len()
        invariant
            i <= columns@.len(),
            table@ == quoted(table_name@),
            list@.len() == i,
            forall|k: int|
                0 <= k < i ==> (#[trigger] list@[k])@ == change_test(table_name@, columns@[k]@),
        decreases columns.len() - i,
    {
        let name = quote_identifier(columns[i].as_str());
        let mut item = table.clone();
        item.append(".");
        item.append(name.as_str());
        item.append(" IS NOT excluded.");
        item.append(name.as_str());
        list.push(item);
        i += 1;
    }
    assert(texts(list@) =~= texts(columns@).map_values(
        |c: Seq<char>| change_test(table_name@, c),
    ));
    list
}

/// The statement that inserts a batch of rows into a table.
pub fn positional_insert_sql(table_name: &str, columns: &Vec<String>, keys: &Vec<String>) -> (sql:
    String)
    ensures
        sql@ == insert_statement(table_name@, texts(columns@), texts(keys@)),
{
    let mut sql = "INSERT INTO ".to_owned();
    sql.append(quote_identifier(table_name).as_str());
    sql.append(" (");
    sql.append(join_texts(&quoted_columns(columns), ", ").as_str());
    sql.append(") SELECT ");
    sql.append(join_texts(&selections(columns.len()), ", ").as_str());
    sql.append(" FROM json_each(?) WHERE TRUE ON CONFLICT DO ");
    assert(sql@ == insert_prefix(table_name@, texts(columns@)));
    let mutable = without_keys(columns, keys);
    if mutable.len() == 0 {
        sql.append("NOTHING");
        return sql;
    }
    sql.append("UPDATE SET ");
    sql.append(join_texts(&assignments(&mutable), ", ").as_str());
    sql.append(" WHERE ");
    sql.append(join_texts(&change_tests(table_name, &mutable), " OR ").as_str());
    sql
}

/// Upserts preserve keys: the columns that a conflict assigns are exactly those
/// that are no keys, so that one with keys alone assigns nothing.
pub proof fn law_conflicts_assign_no_key(columns: Seq<Seq<char>>, keys: Seq<Seq<char>>)
    ensures
        forall|c: Seq<char>|
            #[trigger] mutable_columns(columns, keys).contains(c) <==> columns.contains(c)
                && !keys.contains(c),
        (forall|i: int| 0 <= i < columns.len() ==> keys.contains(#[trigger] columns[i]))
            ==> mutable_columns(columns, keys).len() == 0,
    decreases columns.len(),
{
    let mutable = mutable_columns(columns, keys);
    if columns.len() > 0 {
        let front = columns.drop_last();
        let before = mutable_columns(front, keys);
        law_conflicts_assign_no_key(front, keys);
        assert forall|c: Seq<char>|
            #[trigger] mutable.contains(c) <==> columns.contains(c) && !keys.contains(c) by {
            if mutable.contains(c) {
                let k = choose|k: int| 0 <= k < mutable.len() && mutable[k] == c;
                if k < before.len() {
                    assert(before[k] == c);
                    assert(before.contains(c));
                    let j = choose|j: int| 0 <= j < front.len() && front[j] == c;
                    assert(columns[j] == c);
                } else {
                    assert(columns[columns.len() - 1] == c);
                }
            }
            if columns.contains(c) && !keys.contains(c) {
                let j = choose|j: int| 0 <= j < columns.len() && columns[j] == c;
                if j < front.len() {
                    assert(front[j] == c);
                    assert(before.contains(c));
                    let k = choose|k: int| 0 <= k < before.len() && before[k] == c;
                    assert(mutable[k] == c);
                } else {
                    assert(mutable[mutable.len() - 1] == c);
                }
            }
        }
        if forall|i: int| 0 <= i < columns.len() ==> keys.contains(#[trigger] columns[i]) {
            assert forall|i: int| 0 <= i < front.len() implies keys.contains(
                #[trigger] front[i],
            ) by {
                assert(front[i] == columns[i]);
            }
            assert(keys.contains(columns[columns.len() - 1]));
        }
    }
}

proof fn lemma_doubling_is_injective(a: Seq<char>, b: Seq<char>)
    requires
        replace_char(a, '"', seq!['"', '"']) == replace_char(b, '"', seq!['"', '"']),
    ensures
        a == b,
    decreases a.len(),
{
    let doubled = seq!['"', '"'];
    let x = replace_char(a, '"', doubled);
    let y = replace_char(b, '"', doubled);
    if a.len() == 0 || b.len() == 0 {
        if a.len() > 0 {
            assert(x.last() == a.last());
        }
        if b.len() > 0 {
            assert(y.last() == b.last());
        }
        assert(a =~= b);
    } else {
        assert(x.last() == a.last());
        assert(y.last() == b.last());
        let front = replace_char(a.drop_last(), '"', doubled);
        let other = replace_char(b.drop_last(), '"', doubled);
        assert(front =~= x.take(front.len() as int));
        assert(other =~= y.take(other.len() as int));
        lemma_doubling_is_injective(a.drop_last(), b.drop_last());
        assert(a =~= a.drop_last().push(a.last()));
        assert(b =~= b.drop_last().push(b.last()));
    }
}

/// Names that differ still differ in quotes.
pub proof fn law_quoting_is_injective(a: Seq<char>, b: Seq<char>)
    requires
        quoted(a) == quoted(b),
    ensures
        a == b,
{
    let x = replace_char(a, '"', seq!['"', '"']);
    let y = replace_char(b, '"', seq!['"', '"']);
    let quote = "\""@.len() as int;
    assert(quoted(a).len() == quote + x.len() + quote);
    assert(quoted(b).len() == quote + y.len() + quote);
    assert(quoted(a).subrange(quote, quote + x.len()) =~= x);
    assert(quoted(b).subrange(quote, quote + y.len()) =~= y);
    lemma_doubling_is_injective(a, b);
}

} // verus!
