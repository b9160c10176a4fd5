//! What holds of every scheduled import: the names it uses, the statements it sends, and
//! where it ends.
use crate::importer::d1::SqlValueView;
use crate::importer::extract::{matched_columns, names, positions};
use crate::importer::record::{record_fault, RecordRead};
use crate::importer::rows_laws::{is_first_header, law_columns_are_matched_by_name};
use crate::number::decimal;
use crate::outside::std_text::is_alphanumeric;
use crate::pieces::{
    contains_pattern, find_pattern, join, replace_char, split, trim, trimmed_pieces,
};
use crate::pieces_laws::{
    is_blank, is_tight, law_blanks_around_do_not_matter, law_characters_are_replaced_one_by_one,
    law_parts_are_joined_in_order, law_patterns_stand_inside, law_pieces_are_trimmed_one_by_one,
    law_texts_are_cut_at_separators, law_the_first_place_of_a_pattern,
};
use crate::scheduled::config::{
    all_gtfs_tables, category, prefix_chars, rows_per_statement, GtfsTable, TableSchema,
};
use crate::scheduled::dataset::{DatasetAction, DatasetStep};
use crate::scheduled::import::{
    at_item, condition, items_of, DatasetVersion, ImportAction, ImportPhase,
};
use crate::scheduled::logger::{LogEntry, LogLevel, Logger};
use crate::scheduled::processor::{
    alignment_message, buffered_statement, import_of, imported, last_import_batch, line_at,
    missing_in, multi_row_sql, next_import_record, placeholder, plan_is, row_placeholders,
    row_values, unequal_fault, with_import_row, Buffered, FilePlan, Import, ImportFault,
    Statement,
};
use crate::scheduled::route::{scheduled_route, ScheduledRoute};
use crate::scheduled::schema::known_tables;
use crate::text::texts;
use vstd::prelude::*;
use vstd::string::*;

verus! {

// ---------------------------------------------------------------------------
// Names
// ---------------------------------------------------------------------------
/// A prefix keeps the letters, numbers and underscores of its text, in order, writes an
/// underscore for each hyphen, and drops everything else.
pub proof fn law_prefixes_are_made_letter_by_letter(a: Seq<char>, b: Seq<char>, c: char)
    ensures
        prefix_chars(a + b) == prefix_chars(a) + prefix_chars(b),
        prefix_chars(seq!['-']) == seq!['_'],
        prefix_chars(seq!['_']) == seq!['_'],
        c != '-' && is_alphanumeric(c) ==> prefix_chars(seq![c]) == seq![c],
        c != '-' && c != '_' && !is_alphanumeric(c) ==> prefix_chars(seq![c]).len() == 0,
        prefix_chars(Seq::empty()).len() == 0,
    decreases b.len(),
{
    reveal_with_fuel(prefix_chars, 2);
    assert(seq![c].drop_last() =~= Seq::empty());
    assert(seq!['-'].drop_last() =~= Seq::empty());
    assert(seq!['_'].drop_last() =~= Seq::empty());
    assert(prefix_chars(seq!['-']) =~= seq!['_']);
    assert(prefix_chars(seq!['_']) =~= seq!['_']);
    if c != '-' && is_alphanumeric(c) {
        assert(prefix_chars(seq![c]) =~= seq![c]);
    }
    if b.len() == 0 {
        assert(a + b =~= a);
        assert(prefix_chars(a) + prefix_chars(b) =~= prefix_chars(a));
    } else {
        law_prefixes_are_made_letter_by_letter(a, b.drop_last(), c);
        assert((a + b).drop_last() =~= a + b.drop_last());
        assert(prefix_chars(a + b) =~= prefix_chars(a) + prefix_chars(b));
    }
}

/// The category of an item is what stands behind its first `category=`, up to the next
/// one if there is one; an item without it is its own category.
pub proof fn law_the_category_stands_behind_its_word(
    before: Seq<char>,
    value: Seq<char>,
    behind: Seq<char>,
    other: Seq<char>,
)
    requires
        forall|i: int|
            0 <= i < before.len() ==> #[trigger] (before + "category="@).subrange(i, i + 9)
                != "category="@,
        forall|i: int|
            0 <= i < value.len() ==> #[trigger] (value + "category="@).subrange(i, i + 9)
                != "category="@,
        !contains_pattern(value, "category="@),
        !contains_pattern(other, "category="@),
    ensures
        category(before + "category="@ + value) == value,
        category(before + "category="@ + value + "category="@ + behind) == value,
        category(other) == other,
{
    let word = "category="@;
    reveal_strlit("category=");
    assert(word.len() == 9);
    law_the_first_place_of_a_pattern(other, word);
    law_the_first_place_of_a_pattern(value, word);
    lemma_first_word(before, value, word);
    let item = before + word + value;
    assert(item.skip(before.len() as int + 9) =~= value);
    let rest = value + word + behind;
    lemma_first_word(before, rest, word);
    let long = before + word + value + word + behind;
    assert(long =~= before + word + rest);
    assert(long.skip(before.len() as int + 9) =~= rest);
    lemma_first_word(value, behind, word);
    assert(rest.take(value.len() as int) =~= value);
}

proof fn lemma_first_word(before: Seq<char>, rest: Seq<char>, word: Seq<char>)
    requires
        word.len() == 9,
        forall|i: int|
            0 <= i < before.len() ==> #[trigger] (before + word).subrange(i, i + 9) != word,
    ensures
        find_pattern(before + word + rest, word) == Some(before.len() as int),
{
    let item = before + word + rest;
    let n = before.len() as int;
    law_the_first_place_of_a_pattern(item, word);
    law_patterns_stand_inside(item, word);
    assert(item == before + word + rest);
    assert(contains_pattern(item, word));
    let at = find_pattern(item, word)->Some_0;
    assert(item.subrange(n, n + 9) =~= word);
    if at > n {
        assert(item.subrange(n, n + 9) != word);
    }
    if at < n {
        assert(item.subrange(at, at + 9) =~= (before + word).subrange(at, at + 9));
    }
}

/// Every table of a feed comes from the file with its name and `.txt`, and from no other;
/// no table is named twice.
pub proof fn law_files_are_named_like_their_tables(i: int, j: int)
    requires
        0 <= i < j < all_gtfs_tables().len(),
    ensures
        all_gtfs_tables().len() == 15,
        all_gtfs_tables()[i].csv_file == all_gtfs_tables()[i].base_name + seq!['.', 't', 'x', 't'],
        all_gtfs_tables()[j].csv_file == all_gtfs_tables()[j].base_name + seq!['.', 't', 'x', 't'],
        all_gtfs_tables()[i].base_name != all_gtfs_tables()[j].base_name,
{
    lemma_file_name(i);
    lemma_file_name(j);
    lemma_letters(i);
    lemma_letters(j);
}

/// Letters by which the names of the tables differ: their number, the first and the last.
spec fn letters(i: int) -> (int, char, char) {
    if i == 0 {
        (6, 's', 's')
    } else if i == 1 {
        (6, 'r', 's')
    } else if i == 2 {
        (5, 's', 's')
    } else if i == 3 {
        (8, 'c', 'r')
    } else if i == 4 {
        (5, 't', 's')
    } else if i == 5 {
        (10, 's', 's')
    } else if i == 6 {
        (6, 'a', 'y')
    } else if i == 7 {
        (5, 'a', 's')
    } else if i == 8 {
        (14, 'f', 's')
    } else if i == 9 {
        (10, 'f', 'a')
    } else if i == 10 {
        (13, 'f', 's')
    } else if i == 11 {
        (16, 'r', 's')
    } else if i == 12 {
        (10, 's', 'x')
    } else if i == 13 {
        (11, 'f', 's')
    } else {
        (14, 'c', 's')
    }
}

proof fn lemma_letters(i: int)
    requires
        0 <= i < 15,
    ensures
        ({
            let name = all_gtfs_tables()[i].base_name;
            let (count, first, last) = letters(i);
            &&& name.len() == count
            &&& name[0] == first
            &&& i != 12 ==> name[count - 1] == last
            &&& i == 5 ==> name[5] == 't'
            &&& i == 12 ==> name[5] == 'a'
        }),
{
    reveal_strlit("shapes");
    reveal_strlit("routes");
    reveal_strlit("stops");
    reveal_strlit("calendar");
    reveal_strlit("trips");
    reveal_strlit("stop_times");
    reveal_strlit("agency");
    reveal_strlit("areas");
    reveal_strlit("fare_leg_rules");
    reveal_strlit("fare_media");
    reveal_strlit("fare_products");
    reveal_strlit("rider_categories");
    reveal_strlit("stop_areas");
    reveal_strlit("frequencies");
    reveal_strlit("calendar_dates");
}

proof fn lemma_file_name(i: int)
    requires
        0 <= i < 15,
    ensures
        all_gtfs_tables()[i].csv_file == all_gtfs_tables()[i].base_name + seq!['.', 't', 'x', 't'],
{
    reveal_strlit("shapes");
    reveal_strlit("routes");
    reveal_strlit("stops");
    reveal_strlit("calendar");
    reveal_strlit("trips");
    reveal_strlit("stop_times");
    reveal_strlit("agency");
    reveal_strlit("areas");
    reveal_strlit("fare_leg_rules");
    reveal_strlit("fare_media");
    reveal_strlit("fare_products");
    reveal_strlit("rider_categories");
    reveal_strlit("stop_areas");
    reveal_strlit("frequencies");
    reveal_strlit("calendar_dates");
    reveal_strlit("shapes.txt");
    reveal_strlit("routes.txt");
    reveal_strlit("stops.txt");
    reveal_strlit("calendar.txt");
    reveal_strlit("trips.txt");
    reveal_strlit("stop_times.txt");
    reveal_strlit("agency.txt");
    reveal_strlit("areas.txt");
    reveal_strlit("fare_leg_rules.txt");
    reveal_strlit("fare_media.txt");
    reveal_strlit("fare_products.txt");
    reveal_strlit("rider_categories.txt");
    reveal_strlit("stop_areas.txt");
    reveal_strlit("frequencies.txt");
    reveal_strlit("calendar_dates.txt");
    let end = seq!['.', 't', 'x', 't'];
    assert("shapes.txt"@ =~= "shapes"@ + end);
    assert("routes.txt"@ =~= "routes"@ + end);
    assert("stops.txt"@ =~= "stops"@ + end);
    assert("calendar.txt"@ =~= "calendar"@ + end);
    assert("trips.txt"@ =~= "trips"@ + end);
    assert("stop_times.txt"@ =~= "stop_times"@ + end);
    assert("agency.txt"@ =~= "agency"@ + end);
    assert("areas.txt"@ =~= "areas"@ + end);
    assert("fare_leg_rules.txt"@ =~= "fare_leg_rules"@ + end);
    assert("fare_media.txt"@ =~= "fare_media"@ + end);
    assert("fare_products.txt"@ =~= "fare_products"@ + end);
    assert("rider_categories.txt"@ =~= "rider_categories"@ + end);
    assert("stop_areas.txt"@ =~= "stop_areas"@ + end);
    assert("frequencies.txt"@ =~= "frequencies"@ + end);
    assert("calendar_dates.txt"@ =~= "calendar_dates"@ + end);
}

/// Exactly the tables for which the database has columns are imported, in order.
pub proof fn law_tables_with_columns_are_known(
    tables: Seq<GtfsTable>,
    columns: Seq<Seq<Seq<char>>>,
)
    requires
        tables.len() == columns.len(),
    ensures
        known_tables(tables, columns) == Seq::new(
            tables.len(),
            |i: int| (tables[i], columns[i]),
        ).filter(|t: (GtfsTable, Seq<Seq<char>>)| t.1.len() > 0),
    decreases tables.len(),
{
    reveal(Seq::filter);
    let all = Seq::new(tables.len(), |i: int| (tables[i], columns[i]));
    if tables.len() > 0 {
        let some = tables.drop_last();
        let theirs = columns.drop_last();
        law_tables_with_columns_are_known(some, theirs);
        assert(all.drop_last() =~= Seq::new(some.len(), |i: int| (some[i], theirs[i])));
        assert(all.last() == (tables.last(), columns.last()));
    } else {
        assert(all =~= Seq::empty());
    }
}

// ---------------------------------------------------------------------------
// Lists
// ---------------------------------------------------------------------------
/// Line ends do not matter in a list of items.
pub proof fn law_lists_may_take_several_lines(a: Seq<char>, b: Seq<char>)
    ensures
        items_of(a + seq!['\n'] + b) == items_of(a + b),
        items_of(a + seq!['\r'] + b) == items_of(a + b),
{
    let nothing = Seq::<char>::empty();
    assert(seq![] =~= nothing);
    lemma_left_out(a, b, '\n', '\n');
    lemma_left_out(a, b, '\r', '\n');
    lemma_left_out(a, b, '\n', '\r');
    let one = replace_char(a, '\n', nothing);
    let two = replace_char(b, '\n', nothing);
    law_characters_are_replaced_one_by_one(a, b, '\n', nothing);
    lemma_left_out(one, two, '\r', '\r');
    assert(replace_char(a + seq!['\n'] + b, '\n', nothing) == replace_char(a + b, '\n', nothing));
    assert(replace_char(a + seq!['\r'] + b, '\n', nothing) == one + seq!['\r'] + two);
    assert(replace_char(a + b, '\n', nothing) == one + two);
}

proof fn lemma_left_out(a: Seq<char>, b: Seq<char>, c: char, out: char)
    ensures
        replace_char(a + seq![c] + b, out, Seq::empty()) == replace_char(a, out, Seq::empty()) + (if c
            == out {
            Seq::empty()
        } else {
            seq![c]
        }) + replace_char(b, out, Seq::empty()),
        c == out ==> replace_char(a + seq![c] + b, out, Seq::empty()) == replace_char(
            a + b,
            out,
            Seq::empty(),
        ),
{
    let nothing = Seq::<char>::empty();
    law_characters_are_replaced_one_by_one(a + seq![c], b, out, nothing);
    law_characters_are_replaced_one_by_one(a, seq![c], out, nothing);
    law_characters_are_replaced_one_by_one(a, b, out, nothing);
    let ra = replace_char(a, out, nothing);
    let rb = replace_char(b, out, nothing);
    if c == out {
        assert(ra + nothing + rb =~= ra + rb);
    }
}

/// A list on one line is cut at its commas: it gives back the items that it was made of.
pub proof fn law_items_stand_between_commas(items: Seq<Seq<char>>)
    requires
        items.len() > 0,
        forall|i: int|
            0 <= i < items.len() ==> is_tight(#[trigger] items[i]) && items[i].len() > 0
                && !items[i].contains(',') && !items[i].contains('\n') && !items[i].contains('\r'),
    ensures
        items_of(join(items, seq![','])) == items,
{
    let nothing = Seq::<char>::empty();
    assert(seq![] =~= nothing);
    let list = join(items, seq![',']);
    lemma_no_line_end(items, '\n');
    lemma_no_line_end(items, '\r');
    lemma_nothing_replaced(list, '\n');
    lemma_nothing_replaced(list, '\r');
    lemma_items(items);
}

proof fn lemma_no_line_end(items: Seq<Seq<char>>, c: char)
    requires
        c != ',',
        forall|i: int| 0 <= i < items.len() ==> !(#[trigger] items[i]).contains(c),
    ensures
        !join(items, seq![',']).contains(c),
    decreases items.len(),
{
    law_parts_are_joined_in_order(items, Seq::empty(), seq![',']);
    if items.len() > 1 {
        let front = items.drop_last();
        let last = items.last();
        assert forall|i: int| 0 <= i < front.len() implies !(#[trigger] front[i]).contains(c) by {
            assert(front[i] == items[i]);
        }
        lemma_no_line_end(front, c);
        assert(items =~= front + seq![last]);
        assert(!items[items.len() - 1].contains(c));
        law_parts_are_joined_in_order(front, seq![last], seq![',']);
        law_parts_are_joined_in_order(seq![last], Seq::empty(), seq![',']);
        let all = join(items, seq![',']);
        if all.contains(c) {
            let k = choose|k: int| 0 <= k < all.len() && all[k] == c;
            let f = join(front, seq![',']);
            if k < f.len() {
                assert(f[k] == c);
            } else if k > f.len() {
                assert(last[k - f.len() - 1] == c);
            }
        }
    } else if items.len() == 1 {
        assert(!items[0].contains(c));
    }
}

proof fn lemma_nothing_replaced(s: Seq<char>, c: char)
    requires
        !s.contains(c),
    ensures
        replace_char(s, c, Seq::empty()) == s,
    decreases s.len(),
{
    if s.len() == 0 {
        law_characters_are_replaced_one_by_one(s, s, c, Seq::empty());
        assert(s =~= Seq::empty());
        assert(replace_char(s, c, Seq::empty()) =~= s);
    } else {
        let front = s.drop_last();
        assert(s.contains(s.last()));
        assert(s.last() != c);
        if front.contains(c) {
            let k = choose|k: int| 0 <= k < front.len() && front[k] == c;
            assert(s[k] == c);
        }
        lemma_nothing_replaced(front, c);
        law_characters_are_replaced_one_by_one(front, seq![s.last()], c, Seq::empty());
        assert(front + seq![s.last()] =~= s);
    }
}

proof fn lemma_items(items: Seq<Seq<char>>)
    requires
        items.len() > 0,
        forall|i: int|
            0 <= i < items.len() ==> is_tight(#[trigger] items[i]) && items[i].len() > 0
                && !items[i].contains(','),
    ensures
        trimmed_pieces(split(join(items, seq![',']), ',')) == items,
    decreases items.len(),
{
    let front = items.drop_last();
    let last = items.last();
    assert(items =~= front + seq![last]);
    assert(items[items.len() - 1] == last);
    law_parts_are_joined_in_order(front, seq![last], seq![',']);
    law_parts_are_joined_in_order(seq![last], Seq::empty(), seq![',']);
    law_texts_are_cut_at_separators(last, Seq::empty(), ',');
    law_blanks_around_do_not_matter(Seq::empty(), last, Seq::empty());
    assert(Seq::<char>::empty() + last + Seq::<char>::empty() =~= last);
    assert(trim(last) == last);
    assert(!is_blank(last));
    if front.len() > 0 {
        assert forall|i: int| 0 <= i < front.len() implies is_tight(#[trigger] front[i])
            && front[i].len() > 0 && !front[i].contains(',') by {
            assert(front[i] == items[i]);
        }
        lemma_items(front);
        let cut = split(join(front, seq![',']), ',');
        law_texts_are_cut_at_separators(join(front, seq![',']), last, ',');
        law_pieces_are_trimmed_one_by_one(cut, last);
        assert(cut + seq![last] =~= cut.push(last));
        assert(front.push(last) =~= items);
    } else {
        assert(items =~= seq![last]);
        law_pieces_are_trimmed_one_by_one(Seq::empty(), last);
        assert(Seq::<Seq<char>>::empty().push(last) =~= seq![last]);
        assert(trimmed_pieces(Seq::<Seq<char>>::empty()) =~= Seq::empty());
        assert(trimmed_pieces(seq![last]) =~= items);
    }
}

/// A dataset is asked for under the conditions of its version: one header for what is
/// known of it, and none for what is not.
pub proof fn law_conditions_are_those_known(version: DatasetVersion)
    ensures
        version.etag is None && version.last_modified is None ==> condition(version).len() == 0,
        version.etag matches Some(text) ==> condition(version)[0] == ("If-None-Match"@, text@),
        version.last_modified matches Some(text) ==> condition(version).last() == (
            "If-Modified-Since"@,
            text@,
        ),
        version.etag is Some && version.last_modified is Some ==> condition(version).len() == 2,
        version.etag is Some != version.last_modified is Some ==> condition(version).len() == 1,
{
}

// ---------------------------------------------------------------------------
// Statements
// ---------------------------------------------------------------------------
/// As many rows go into a statement as its hundred parameters allow, and one row where
/// not even that many are allowed.
pub proof fn law_statements_take_as_many_rows_as_they_can(columns: nat)
    requires
        columns > 0,
    ensures
        ({
            let rows = rows_per_statement(columns);
            &&& rows >= 1
            &&& columns <= 100 ==> rows * columns <= 100 < (rows + 1) * columns
            &&& columns > 100 ==> rows == 1
        }),
{
    let rows = 100nat / columns;
    vstd::arithmetic::div_mod::lemma_fundamental_div_mod(100, columns as int);
    vstd::arithmetic::div_mod::lemma_mod_bound(100, columns as int);
    assert(columns * rows == rows * columns) by (nonlinear_arith);
    assert((rows + 1) * columns == rows * columns + columns) by (nonlinear_arith);
    if rows == 0 {
        assert(0 * columns == 0) by (nonlinear_arith);
    }
    if columns > 100 && rows >= 1 {
        assert(rows * columns >= columns) by (nonlinear_arith)
            requires
                rows >= 1,
        ;
    }
}

/// The placeholders of a row whose first one has a number.
pub open spec fn numbered(first: nat, columns: nat) -> Seq<char> {
    seq!['('] + join(
        Seq::new(columns, |c: int| seq!['?'] + decimal((first + c) as nat)),
        seq![',', ' '],
    ) + seq![')']
}

/// A statement numbers its placeholders from one on, row by row: one more row goes on
/// where the last one ended.
pub proof fn law_placeholders_are_numbered_on(
    table: Seq<char>,
    list: Seq<char>,
    columns: nat,
    rows: nat,
)
    ensures
        multi_row_sql(table, list, columns, 1) == "INSERT OR REPLACE INTO "@ + table + " ("@ + list
            + ") VALUES "@ + numbered(1, columns),
        rows > 0 ==> multi_row_sql(table, list, columns, rows + 1) == multi_row_sql(
            table,
            list,
            columns,
            rows,
        ) + seq![',', ' '] + numbered(rows * columns + 1, columns),
{
    lemma_numbered(0, columns);
    lemma_numbered(rows, columns);
    assert(0 * columns == 0) by (nonlinear_arith);
    reveal_strlit(", ");
    assert(", "@ =~= seq![',', ' ']);
    let row = |r: int| row_placeholders(r, columns);
    let one = Seq::new(1, row);
    assert(one =~= seq![row(0)]);
    law_parts_are_joined_in_order(one, Seq::empty(), ", "@);
    let some = Seq::new(rows, row);
    let all = Seq::new(rows + 1, row);
    assert(all =~= some + seq![row(rows as int)]);
    law_parts_are_joined_in_order(some, seq![row(rows as int)], ", "@);
    law_parts_are_joined_in_order(seq![row(rows as int)], Seq::empty(), ", "@);
    let head = "INSERT OR REPLACE INTO "@ + table + " ("@ + list + ") VALUES "@;
    assert(multi_row_sql(table, list, columns, 1) == head + join(
        Seq::new(1, |row: int| row_placeholders(row, columns)),
        ", "@,
    ));
    assert(Seq::new(1, |row: int| row_placeholders(row, columns))
        =~= one);
    assert(Seq::new(rows, |row: int| row_placeholders(row, columns))
        =~= some);
    assert(Seq::new(
        rows + 1,
        |row: int| row_placeholders(row, columns),
    ) =~= all);
    if rows > 0 {
        assert(head + (join(some, ", "@) + ", "@ + row(rows as int)) =~= head + join(some, ", "@)
            + ", "@ + row(rows as int));
    }
}

proof fn lemma_numbered(row: nat, columns: nat)
    ensures
        row_placeholders(row as int, columns) == numbered(
            row * columns + 1,
            columns,
        ),
{
    reveal_strlit("(");
    reveal_strlit(")");
    reveal_strlit(", ");
    reveal_strlit("?");
    assert("("@ =~= seq!['(']);
    assert(")"@ =~= seq![')']);
    assert(", "@ =~= seq![',', ' ']);
    assert("?"@ =~= seq!['?']);
    let first = row * columns + 1;
    assert(Seq::new(
        columns,
        |c: int| placeholder(row * columns + c + 1),
    ) =~= Seq::new(columns, |c: int| seq!['?'] + decimal((first + c) as nat)));
}

/// A statement lists the columns that the file shares with its table, in the order of
/// the table, and takes the values of each row from the first column of the file with
/// that name.
pub proof fn law_statements_list_the_columns_they_fill(
    schema: TableSchema,
    table_name: Seq<char>,
    data: Seq<u8>,
    headers: Seq<Seq<char>>,
)
    requires
        schema.wf(),
    ensures
        ({
            let import = import_of(schema, table_name, data, headers);
            let columns = texts(schema.db_columns@);
            let shared = columns.filter(|c: Seq<char>| headers.contains(c));
            &&& import.col_list == join(shared, seq![',', ' '])
            &&& import.indices.len() == shared.len()
            &&& import.table_name == table_name
            &&& import.data == data
            &&& import.field_count == headers.len()
            &&& forall|i: int|
                0 <= i < shared.len() ==> is_first_header(
                    headers,
                    #[trigger] import.indices[i],
                    shared[i],
                )
        }),
{
    let columns = texts(schema.db_columns@);
    let matched = matched_columns(headers, columns);
    law_columns_are_matched_by_name(headers, columns);
    reveal_strlit(", ");
    assert(", "@ =~= seq![',', ' ']);
    assert(names(matched).len() == matched.len());
    assert(positions(matched).len() == matched.len());
    if matched.len() == columns.len() {
        lemma_all_kept(headers, columns);
    }
}

proof fn lemma_all_kept(headers: Seq<Seq<char>>, columns: Seq<Seq<char>>)
    ensures
        columns.filter(|c: Seq<char>| headers.contains(c)).len() <= columns.len(),
        columns.filter(|c: Seq<char>| headers.contains(c)).len() == columns.len() ==> columns.filter(
            |c: Seq<char>| headers.contains(c),
        ) == columns,
    decreases columns.len(),
{
    reveal(Seq::filter);
    let kept = columns.filter(|c: Seq<char>| headers.contains(c));
    if columns.len() > 0 {
        lemma_all_kept(headers, columns.drop_last());
        if kept.len() == columns.len() {
            assert(kept =~= columns.drop_last().push(columns.last()));
            assert(kept =~= columns);
        }
    } else {
        assert(kept =~= columns);
    }
}

/// A statement has a parameter for each of its placeholders.
pub open spec fn is_complete(import: Import, statement: Statement, rows: nat) -> bool {
    &&& 1 <= rows <= import.rows_per_insert
    &&& statement.sql == multi_row_sql(
        import.table_name,
        import.col_list,
        import.indices.len(),
        rows,
    )
    &&& statement.params.len() == rows * import.indices.len()
}

/// The statement is complete, whatever the number of its rows is.
pub open spec fn has_all_parameters(import: Import, statement: Statement) -> bool {
    exists|rows: nat| #[trigger] is_complete(import, statement, rows)
}

/// Every statement of an import has as many parameters as placeholders.
pub proof fn law_every_placeholder_has_its_parameter(
    import: Import,
    state: Buffered,
    processed: nat,
)
    requires
        state.rows < import.rows_per_insert,
        state.params.len() == state.rows * import.indices.len(),
        forall|i: int|
            0 <= i < state.statements.len() ==> has_all_parameters(
                import,
                #[trigger] state.statements[i],
            ),
    ensures
        ({
            let batches = imported(import, state, processed).batches;
            forall|b: int, i: int|
                0 <= b < batches.len() && 0 <= i < batches[b].len() ==> has_all_parameters(
                    import,
                    #[trigger] batches[b][i],
                )
        }),
    decreases import.data.len() - state.at,
{
    let all = imported(import, state, processed);
    let read = next_import_record(import, state);
    let k = import.indices.len();
    if record_fault(read, u64::MAX) is None {
        if let RecordRead::Found(fields, end) = read {
            if fields.len() == import.field_count {
                let (sent, next) = with_import_row(import, state);
                let params = state.params + row_values(fields, import.indices);
                let rows = state.rows + 1;
                assert((state.rows + 1) * k == state.rows * k + k) by (nonlinear_arith);
                assert(0 * k == 0) by (nonlinear_arith);
                assert(params.len() == rows * k);
                if rows >= import.rows_per_insert {
                    let made = buffered_statement(
                        import,
                        rows,
                        params,
                    );
                    assert(is_complete(import, made, rows));
                    let list = state.statements.push(made);
                    assert forall|i: int| 0 <= i < list.len() implies has_all_parameters(
                        import,
                        #[trigger] list[i],
                    ) by {
                        if i < state.statements.len() {
                            assert(list[i] == state.statements[i]);
                        }
                    }
                }
                law_every_placeholder_has_its_parameter(import, next, processed + 1);
                let rest = imported(import, next, processed + 1).batches;
                assert(all.batches == sent + rest);
                assert forall|b: int, i: int|
                    0 <= b < all.batches.len() && 0 <= i < all.batches[b].len() implies has_all_parameters(
                    import,
                    #[trigger] all.batches[b][i],
                ) by {
                    if b < sent.len() {
                        assert(all.batches[b] == sent[b]);
                        assert(sent[b] == state.statements.push(
                            buffered_statement(import, rows, params),
                        ));
                    } else {
                        assert(all.batches[b] == rest[b - sent.len()]);
                        assert(has_all_parameters(import, rest[b - sent.len()][i]));
                    }
                }
            }
        } else {
            let last = last_import_batch(import, state);
            assert(all.batches == last);
            if state.rows > 0 {
                let made = buffered_statement(
                    import,
                    state.rows,
                    state.params,
                );
                assert(is_complete(import, made, state.rows));
            }
        }
    }
}

/// Statements and batches are filled: a row waits until a statement is full, and a
/// statement until a hundred make a batch.
pub proof fn law_statements_and_batches_are_filled(
    import: Import,
    state: Buffered,
    fields: Seq<Seq<char>>,
    end: nat,
)
    requires
        next_import_record(import, state) == RecordRead::Found(fields, end),
    ensures
        ({
            let (sent, next) = with_import_row(import, state);
            let full = state.rows + 1 >= import.rows_per_insert;
            &&& next.at == end
            &&& !full ==> sent.len() == 0 && next.rows == state.rows + 1 && next.statements
                == state.statements
            &&& full ==> next.rows == 0 && next.params.len() == 0
            &&& full && state.statements.len() + 1 < 100 ==> sent.len() == 0
                && next.statements.len() == state.statements.len() + 1
            &&& full && state.statements.len() + 1 >= 100 ==> sent.len() == 1 && sent[0].len()
                == state.statements.len() + 1 && next.statements.len() == 0
        }),
{
}

// ---------------------------------------------------------------------------
// Where an import ends
// ---------------------------------------------------------------------------
/// So many records stand from a place on, each with as many fields as the header, and
/// then the file ends.
pub open spec fn holds(import: Import, at: nat, records: nat) -> bool
    decreases records,
{
    let read = next_import_record(
        import,
        Buffered { at, rows: 0, params: Seq::empty(), statements: Seq::empty() },
    );
    &&& record_fault(read, u64::MAX) is None
    &&& if records == 0 {
        !(read is Found)
    } else {
        read matches RecordRead::Found(fields, end) && fields.len() == import.field_count && holds(
            import,
            end,
            (records - 1) as nat,
        )
    }
}

/// An import succeeds exactly where its file holds nothing but records with as many
/// fields as the header, to its end, and then counts all of them.
pub proof fn law_imports_end_with_their_file(
    import: Import,
    state: Buffered,
    processed: nat,
    records: nat,
)
    ensures
        imported(import, state, processed).result == Ok::<
            nat,
            ImportFault,
        >(processed + records) <==> holds(import, state.at, records),
    decreases import.data.len() - state.at,
{
    let read = next_import_record(import, state);
    assert(read == next_import_record(
        import,
        Buffered { at: state.at, rows: 0, params: Seq::empty(), statements: Seq::empty() },
    ));
    if record_fault(read, u64::MAX) is None {
        if let RecordRead::Found(fields, end) = read {
            if fields.len() == import.field_count {
                let (sent, next) = with_import_row(import, state);
                if records > 0 {
                    law_imports_end_with_their_file(
                        import,
                        next,
                        processed + 1,
                        (records - 1) as nat,
                    );
                } else {
                    lemma_counts_on(import, next, processed + 1);
                }
            }
        }
    }
}

proof fn lemma_counts_on(import: Import, state: Buffered, processed: nat)
    ensures
        imported(import, state, processed).result matches Ok(n) ==> n >= processed,
    decreases import.data.len() - state.at,
{
    let read = next_import_record(import, state);
    if record_fault(read, u64::MAX) is None {
        if let RecordRead::Found(fields, end) = read {
            if fields.len() == import.field_count {
                let (sent, next) = with_import_row(import, state);
                lemma_counts_on(import, next, processed + 1);
            }
        }
    }
}

/// A record with another number of fields than the header ends its import, with its
/// number, its line, its place and the two numbers of fields.
pub proof fn law_records_have_as_many_fields_as_the_header(
    import: Import,
    state: Buffered,
    processed: nat,
    fields: Seq<Seq<char>>,
    end: nat,
)
    requires
        next_import_record(import, state) == RecordRead::Found(fields, end),
        fields.len() != import.field_count,
    ensures
        imported(import, state, processed).batches.len() == 0,
        imported(import, state, processed).result is Err,
        imported(import, state, processed).result->Err_0 == unequal_fault(
            import,
            state.at,
            processed,
            fields.len(),
        ),
{
}

/// The line of a place is one more than the line ends before it.
pub proof fn law_lines_are_counted(data: Seq<u8>, at: nat)
    requires
        at <= data.len(),
    ensures
        line_at(data, at) == 1 + data.take(at as int).filter(|b: u8| b == 10).len(),
    decreases at,
{
    reveal(Seq::filter);
    if at > 0 {
        law_lines_are_counted(data, (at - 1) as nat);
        let so_far = data.take(at as int);
        assert(so_far.drop_last() =~= data.take(at - 1));
        assert(so_far.last() == data[at - 1]);
    }
}

/// The columns that only one side has are those of its list that the other does not hold,
/// in order; nothing is said where there are none on either side.
pub proof fn law_columns_of_one_side_are_told(
    filename: Seq<char>,
    headers: Seq<Seq<char>>,
    columns: Seq<Seq<char>>,
    matched: nat,
)
    ensures
        missing_in(headers, columns) == headers.filter(|h: Seq<char>| !columns.contains(h)),
        alignment_message(filename, headers, columns, matched) is None <==> (forall|i: int|
            0 <= i < headers.len() ==> columns.contains(#[trigger] headers[i])) && (forall|i: int|
            0 <= i < columns.len() ==> headers.contains(#[trigger] columns[i])),
{
    lemma_missing(headers, columns);
    lemma_missing(columns, headers);
}

proof fn lemma_missing(list: Seq<Seq<char>>, other: Seq<Seq<char>>)
    ensures
        missing_in(list, other) == list.filter(|h: Seq<char>| !other.contains(h)),
        missing_in(list, other).len() == 0 <==> forall|i: int|
            0 <= i < list.len() ==> other.contains(#[trigger] list[i]),
    decreases list.len(),
{
    reveal(Seq::filter);
    if list.len() > 0 {
        let front = list.drop_last();
        lemma_missing(front, other);
        assert(list[list.len() - 1] == list.last());
        if forall|i: int| 0 <= i < list.len() ==> other.contains(#[trigger] list[i]) {
            assert forall|i: int| 0 <= i < front.len() implies other.contains(
                #[trigger] front[i],
            ) by {
                assert(front[i] == list[i]);
            }
        }
        if other.contains(list.last()) && (forall|i: int|
            0 <= i < front.len() ==> other.contains(#[trigger] front[i])) {
            assert forall|i: int| 0 <= i < list.len() implies other.contains(
                #[trigger] list[i],
            ) by {
                if i < front.len() {
                    assert(list[i] == front[i]);
                }
            }
        }
    } else {
        assert(missing_in(list, other) =~= list.filter(|h: Seq<char>| !other.contains(h)));
    }
}

/// The values of a row are those of its fields, one for each column, and null where the
/// record has no such field.
pub proof fn law_rows_have_a_value_for_each_column(
    record: Seq<Seq<char>>,
    indices: Seq<int>,
    i: int,
)
    requires
        0 <= i < indices.len(),
    ensures
        row_values(record, indices).len() == indices.len(),
        0 <= indices[i] < record.len() ==> row_values(record, indices)[i] == SqlValueView::Text(
            record[indices[i]],
        ),
        !(0 <= indices[i] < record.len()) ==> row_values(record, indices)[i] is Null,
{
}

// ---------------------------------------------------------------------------
// One after the other
// ---------------------------------------------------------------------------
/// The datasets of all items are imported one after the other, each from the address of
/// the feeds with the item behind it, and into the tables of its own prefix; behind the
/// last one the lock is given back.
pub proof fn law_items_are_imported_one_after_the_other(
    action: ImportAction,
    phase: ImportPhase,
    base_url: Seq<char>,
    items: Seq<Seq<char>>,
    index: int,
)
    requires
        at_item(action, phase, base_url, items, index),
        0 <= index,
    ensures
        action is ImportDataset <==> index < items.len(),
        action is Unlock <==> index >= items.len(),
        action matches ImportAction::ImportDataset { prefix, url } ==> url@ == base_url
            + items[index] && prefix@ == prefix_chars(category(items[index])) && phase is ImportingDataset,
        action is Unlock ==> (phase matches ImportPhase::Unlocking(result) && result is Ok),
{
}

/// The files of a dataset are imported one after the other, each into the table of its
/// name behind the prefix and an underscore; behind the last one the version is recorded.
pub proof fn law_files_are_imported_one_after_the_other(
    step: DatasetStep,
    prefix: String,
    version: DatasetVersion,
    schemas: Vec<TableSchema>,
    index: int,
)
    requires
        step.visits(prefix, version, schemas, index),
        0 <= index,
    ensures
        step is Continue,
        step->Continue_1 is ProcessFile <==> index < schemas@.len(),
        step->Continue_1 is RecordVersion <==> index >= schemas@.len(),
        step->Continue_1 matches DatasetAction::ProcessFile { index: given, table_name } ==> given
            == index && table_name@ == prefix@ + seq!['_'] + schemas@[index].base_name@,
        step->Continue_1 matches DatasetAction::RecordVersion(given) ==> given == version,
{
    reveal_strlit("_");
    assert("_"@ =~= seq!['_']);
}

/// A file is imported exactly where it shares a column with its table.
pub proof fn law_files_without_a_shared_column_are_left_out(
    plan: FilePlan,
    schema: TableSchema,
    table_name: Seq<char>,
    data: Seq<u8>,
    headers: Seq<Seq<char>>,
    start: nat,
)
    requires
        plan_is(plan, schema, table_name, data, headers, start),
    ensures
        plan is NoMatchingColumns <==> forall|i: int|
            0 <= i < schema.db_columns@.len() ==> !headers.contains(
                (#[trigger] schema.db_columns@[i])@,
            ),
        plan is NoMatchingColumns || plan is Import,
        plan matches FilePlan::Import { csv, .. } ==> csv.is(
            imported(
                import_of(schema, table_name, data, headers),
                Buffered { at: start, rows: 0, params: Seq::empty(), statements: Seq::empty() },
                0,
            ),
        ),
{
    let columns = texts(schema.db_columns@);
    law_columns_are_matched_by_name(headers, columns);
    let matched = matched_columns(headers, columns);
    assert(names(matched).len() == matched.len());
    lemma_some_kept(headers, columns);
    assert(columns.len() == schema.db_columns@.len());
    if matched.len() == 0 {
        assert forall|i: int| 0 <= i < schema.db_columns@.len() implies !headers.contains(
            (#[trigger] schema.db_columns@[i])@,
        ) by {
            assert(columns[i] == schema.db_columns@[i]@);
        }
    } else {
        let i = choose|i: int| 0 <= i < columns.len() && headers.contains(#[trigger] columns[i]);
        assert(columns[i] == schema.db_columns@[i]@);
    }
}

proof fn lemma_some_kept(headers: Seq<Seq<char>>, columns: Seq<Seq<char>>)
    ensures
        columns.filter(|c: Seq<char>| headers.contains(c)).len() == 0 <==> forall|i: int|
            0 <= i < columns.len() ==> !headers.contains(#[trigger] columns[i]),
    decreases columns.len(),
{
    reveal(Seq::filter);
    if columns.len() > 0 {
        let front = columns.drop_last();
        lemma_some_kept(headers, front);
        assert(columns[columns.len() - 1] == columns.last());
        if forall|i: int| 0 <= i < columns.len() ==> !headers.contains(#[trigger] columns[i]) {
            assert forall|i: int| 0 <= i < front.len() implies !headers.contains(
                #[trigger] front[i],
            ) by {
                assert(front[i] == columns[i]);
            }
        }
        if !headers.contains(columns.last()) && (forall|i: int|
            0 <= i < front.len() ==> !headers.contains(#[trigger] front[i])) {
            assert forall|i: int| 0 <= i < columns.len() implies !headers.contains(
                #[trigger] columns[i],
            ) by {
                if i < front.len() {
                    assert(columns[i] == front[i]);
                }
            }
        }
    }
}

/// The worker is asked to import under `/import`, and whether it runs under `/`; any
/// other path leads nowhere.
pub proof fn law_two_paths_are_known(path: Seq<char>)
    ensures
        scheduled_route(path) == ScheduledRoute::Import <==> path == seq![
            '/',
            'i',
            'm',
            'p',
            'o',
            'r',
            't',
        ],
        scheduled_route(path) == ScheduledRoute::Health <==> path == seq!['/'],
{
    reveal_strlit("/import");
    reveal_strlit("/");
    assert("/import"@ =~= seq!['/', 'i', 'm', 'p', 'o', 'r', 't']);
    assert("/"@ =~= seq!['/']);
}

/// A message of more weight has a greater number, from two on, and each level has a label
/// of its own.
pub proof fn law_levels_are_ordered_by_weight(entry: LogEntry, logger: Logger, message: Seq<char>)
    ensures
        entry.is(logger, LogLevel::Info, message) ==> entry.console@ == seq![
            '[', 'I', 'N', 'F', 'O', ']', ' ',
        ] + message,
        entry.is(logger, LogLevel::Warn, message) ==> entry.console@ == seq![
            '[', 'W', 'A', 'R', 'N', ']', ' ',
        ] + message,
        entry.is(logger, LogLevel::Error, message) ==> entry.console@ == seq![
            '[', 'E', 'R', 'R', 'O', 'R', ']', ' ',
        ] + message,
        LogLevel::Info.number() == 2,
        LogLevel::Warn.number() == LogLevel::Info.number() + 1,
        LogLevel::Error.number() == LogLevel::Warn.number() + 1,
        forall|level: LogLevel| #[trigger]
            entry.is(logger, level, message) ==> (entry.row is Some <==> logger.db is Some),
{
    reveal_strlit("[");
    reveal_strlit("] ");
    reveal_strlit("INFO");
    reveal_strlit("WARN");
    reveal_strlit("ERROR");
    assert("["@ + "INFO"@ + "] "@ =~= seq!['[', 'I', 'N', 'F', 'O', ']', ' ']);
    assert("["@ + "WARN"@ + "] "@ =~= seq!['[', 'W', 'A', 'R', 'N', ']', ' ']);
    assert("["@ + "ERROR"@ + "] "@ =~= seq!['[', 'E', 'R', 'R', 'O', 'R', ']', ' ']);
}

} // verus!
