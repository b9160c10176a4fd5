//! What holds of the tables that are read out of every schema.
use crate::importer::schema::{
    all_keys, bracketed, definition_keys, definitions, depth, inline_columns,
    is_constraint, read_lines, schema_tables, table_name, table_word, with_line,
    with_table, Reading, TableModel,
};
use crate::outside::std_text::uppercase;
use crate::pieces::{
    begins_with, contains_pattern, ends_with, find_char, find_last_char, join, split, trim,
    trim_end_char, trimmed_pieces, words,
};
use crate::pieces_laws::{
    is_blank, is_tight, law_blanks_around_do_not_matter, law_parts_are_joined_in_order,
    law_pieces_are_trimmed_one_by_one, law_texts_are_cut_at_separators,
    law_the_last_place_of_a_character,
};
use vstd::prelude::*;
use vstd::string::*;

verus! {

// ---------------------------------------------------------------------------
// The list of tables
// ---------------------------------------------------------------------------
/// A table takes the place of the first one with its name; a new one comes last. All
/// others stay where they are.
pub proof fn law_tables_are_replaced_in_place(
    tables: Seq<TableModel>,
    table: TableModel,
    i: int,
)
    ensures
        0 <= i < tables.len() && tables[i].name == table.name && (forall|k: int|
            0 <= k < i ==> (#[trigger] tables[k]).name != table.name) ==> with_table(tables, table)
            == tables.update(i, table),
        (forall|k: int| 0 <= k < tables.len() ==> (#[trigger] tables[k]).name != table.name)
            ==> with_table(tables, table) == tables.push(table),
    decreases tables.len(),
{
    if tables.len() > 0 {
        let rest = tables.drop_first();
        assert forall|k: int| 0 <= k < rest.len() implies rest[k] == tables[k + 1] by {}
        law_tables_are_replaced_in_place(rest, table, i - 1);
        if 0 <= i < tables.len() && tables[i].name == table.name && (forall|k: int|
            0 <= k < i ==> (#[trigger] tables[k]).name != table.name) {
            if i > 0 {
                assert(tables[0].name != table.name);
                assert forall|k: int| 0 <= k < i - 1 implies (#[trigger] rest[k]).name
                    != table.name by {
                    assert(rest[k] == tables[k + 1]);
                }
                assert(rest[i - 1] == tables[i]);
            }
            assert(with_table(tables, table) =~= tables.update(i, table));
        }
        if forall|k: int| 0 <= k < tables.len() ==> (#[trigger] tables[k]).name != table.name {
            assert(tables[0].name != table.name);
            assert(with_table(tables, table) =~= tables.push(table));
        }
    } else {
        assert(with_table(tables, table) =~= tables.push(table));
    }
}

// ---------------------------------------------------------------------------
// Names
// ---------------------------------------------------------------------------
/// The word is none that leads to a name, and opens no bracket.
pub open spec fn is_plain(word: Seq<char>) -> bool {
    &&& !begins_with(word, "("@)
    &&& uppercase(word) != "EXISTS"@
    &&& uppercase(word) != "TABLE"@
}

/// Nothing follows, or a word that opens a bracket.
pub open spec fn ends_name(rest: Seq<Seq<char>>) -> bool {
    rest.len() > 0 ==> begins_with(rest[0], "("@)
}

/// A table is named by the word behind `TABLE`, or behind `IF NOT EXISTS`.
pub proof fn law_tables_are_named(
    create: Seq<char>,
    table: Seq<char>,
    iff: Seq<char>,
    not: Seq<char>,
    exists_word: Seq<char>,
    name: Seq<char>,
    rest: Seq<Seq<char>>,
)
    requires
        is_plain(create),
        uppercase(table) == "TABLE"@,
        !begins_with(table, "("@),
        is_plain(name),
        ends_name(rest),
    ensures
        uppercase(name) != "IF"@ ==> table_word(seq![create, table, name] + rest, 0, ""@) == name,
        is_plain(iff) && uppercase(iff) == "IF"@ && is_plain(not) && uppercase(exists_word)
            == "EXISTS"@ && !begins_with(exists_word, "("@) ==> table_word(
            seq![create, table, iff, not, exists_word, name] + rest,
            0,
            ""@,
        ) == name,
{
    reveal_strlit("TABLE");
    reveal_strlit("EXISTS");
    assert("TABLE"@.len() == 5 && "EXISTS"@.len() == 6);
    let short = seq![create, table, name] + rest;
    assert(short[0] == create && short[1] == table && short[2] == name);
    if rest.len() > 0 {
        assert(short[3] == rest[0]);
    }
    if uppercase(name) != "IF"@ {
        reveal_with_fuel(table_word, 5);
        assert(table_word(short, 3, name) == name);
        assert(table_word(short, 2, name) == name);
        assert(table_word(short, 1, ""@) == name);
    }
    let long = seq![create, table, iff, not, exists_word, name] + rest;
    assert(long[0] == create && long[1] == table && long[2] == iff && long[3] == not && long[4]
        == exists_word && long[5] == name);
    if rest.len() > 0 {
        assert(long[6] == rest[0]);
    }
    if is_plain(iff) && uppercase(iff) == "IF"@ && is_plain(not) && uppercase(exists_word)
        == "EXISTS"@ && !begins_with(exists_word, "("@) {
        assert(table_word(long, 6, name) == name);
        assert(table_word(long, 5, name) == name);
        assert(table_word(long, 4, ""@) == name);
        assert(table_word(long, 3, ""@) == name);
        assert(table_word(long, 2, ""@) == name);
        assert(table_word(long, 1, ""@) == name);
        assert(table_word(long, 0, ""@) == name);
    }
}

/// The words with which a constraint begins.
pub open spec fn constraint_words() -> Seq<Seq<char>> {
    seq!["PRIMARY KEY"@, "FOREIGN KEY"@, "UNIQUE"@, "CHECK"@]
}

/// The definition begins with one of the words of a constraint, in whatever case.
pub open spec fn constrains(definition: Seq<char>) -> bool {
    exists|i: int|
        0 <= i < 4 && begins_with(uppercase(definition), #[trigger] constraint_words()[i])
}

proof fn lemma_constraint(definition: Seq<char>)
    ensures
        is_constraint(uppercase(definition)) == constrains(definition),
{
    let w = constraint_words();
    assert(w[0] == "PRIMARY KEY"@ && w[1] == "FOREIGN KEY"@ && w[2] == "UNIQUE"@ && w[3]
        == "CHECK"@);
}

// ---------------------------------------------------------------------------
// Brackets
// ---------------------------------------------------------------------------
/// The brackets that are open behind a text are those opened less those closed.
pub proof fn law_brackets_are_counted(text: Seq<char>)
    ensures
        depth(text) == text.filter(|c: char| c == '(').len() - text.filter(
            |c: char| c == ')',
        ).len(),
    decreases text.len(),
{
    reveal(Seq::filter);
    if text.len() > 0 {
        law_brackets_are_counted(text.drop_last());
    }
}

/// What stands in brackets stands between the first that opens and the last that closes;
/// without one of the two, nothing does.
pub proof fn law_what_stands_in_brackets(before: Seq<char>, inner: Seq<char>, behind: Seq<char>)
    requires
        !before.contains('('),
        !behind.contains(')'),
    ensures
        bracketed(before + seq!['('] + inner + seq![')'] + behind) == inner,
        bracketed(before).len() == 0,
        bracketed(behind).len() == 0,
{
    law_the_last_place_of_a_character(before, ')');
    law_the_last_place_of_a_character(behind, ')');
    lemma_no_char(before, '(');
    lemma_at_or_behind_zero(behind, '(');
    if find_last_char(behind, ')') >= 0 {
        assert(behind.contains(behind[find_last_char(behind, ')')]));
    }
    let text = before + seq!['('] + inner + seq![')'] + behind;
    let open = before.len() as int;
    let close = open + 1 + inner.len();
    assert(text[open] == '(');
    assert(text[close] == ')');
    assert forall|k: int| 0 <= k < open implies text[k] != '(' by {
        assert(text[k] == before[k]);
    }
    lemma_first_char(text, '(', open);
    law_the_last_place_of_a_character(text, ')');
    let last = find_last_char(text, ')');
    assert(last >= close);
    if last > close {
        assert(text[last] == behind[last - close - 1]);
        assert(behind.contains(')'));
    }
    assert(text.subrange(open + 1, close) =~= inner);
}

proof fn lemma_no_char(s: Seq<char>, c: char)
    requires
        !s.contains(c),
    ensures
        find_char(s, c) == s.len(),
    decreases s.len(),
{
    if s.len() > 0 {
        assert(s.contains(s[0]));
        let rest = s.drop_first();
        if rest.contains(c) {
            let k = choose|k: int| 0 <= k < rest.len() && rest[k] == c;
            assert(s[k + 1] == c);
        }
        lemma_no_char(rest, c);
    }
}

proof fn lemma_at_or_behind_zero(s: Seq<char>, c: char)
    ensures
        find_char(s, c) >= 0,
    decreases s.len(),
{
    if s.len() > 0 && s[0] != c {
        lemma_at_or_behind_zero(s.drop_first(), c);
    }
}

proof fn lemma_first_char(s: Seq<char>, c: char, at: int)
    requires
        0 <= at < s.len(),
        s[at] == c,
        forall|k: int| 0 <= k < at ==> s[k] != c,
    ensures
        find_char(s, c) == at,
    decreases s.len(),
{
    if at > 0 {
        assert(s[0] != c);
        let rest = s.drop_first();
        assert forall|k: int| 0 <= k < at - 1 implies rest[k] != c by {
            assert(rest[k] == s[k + 1]);
        }
        lemma_first_char(rest, c, at - 1);
    }
}

/// A text has a comma outside of brackets.
pub open spec fn has_open_comma(text: Seq<char>) -> bool {
    exists|k: int| 0 <= k < text.len() && #[trigger] text[k] == ',' && depth(text.take(k)) == 0
}

/// The definitions of a text are cut at its commas outside of brackets: they make up the
/// text again with the commas between them, none has such a comma left, and each but the
/// last has closed its brackets.
pub proof fn law_definitions_are_cut_outside_of_brackets(text: Seq<char>)
    ensures
        ({
            let list = definitions(text);
            &&& list.len() > 0
            &&& join(list, seq![',']) == text
            &&& forall|i: int| 0 <= i < list.len() ==> !has_open_comma(#[trigger] list[i])
            &&& forall|i: int| 0 <= i < list.len() - 1 ==> depth(#[trigger] list[i]) == 0
            &&& depth(list.last()) == depth(text)
        }),
    decreases text.len(),
{
    let list = definitions(text);
    let sep = seq![','];
    if text.len() == 0 {
        law_parts_are_joined_in_order(list, Seq::empty(), sep);
        assert(join(list, sep) =~= text);
    } else {
        let front = text.drop_last();
        let c = text.last();
        let before = definitions(front);
        law_definitions_are_cut_outside_of_brackets(front);
        assert(text =~= front + seq![c]);
        if c == ',' && depth(front) == 0 {
            let more = seq![Seq::<char>::empty()];
            law_parts_are_joined_in_order(before, more, sep);
            law_parts_are_joined_in_order(more, Seq::empty(), sep);
            assert(list =~= before + more);
            assert(join(list, sep) =~= text);
            assert forall|i: int| 0 <= i < list.len() implies !has_open_comma(
                #[trigger] list[i],
            ) by {
                if i < before.len() {
                    assert(list[i] == before[i]);
                }
            }
            assert forall|i: int| 0 <= i < list.len() - 1 implies depth(#[trigger] list[i])
                == 0 by {
                assert(list[i] == before[i]);
            }
        } else {
            let last = before.last().push(c);
            let some = before.drop_last();
            assert(before =~= some + seq![before.last()]);
            assert(list =~= some + seq![last]);
            law_parts_are_joined_in_order(some, seq![before.last()], sep);
            law_parts_are_joined_in_order(some, seq![last], sep);
            law_parts_are_joined_in_order(seq![before.last()], Seq::empty(), sep);
            law_parts_are_joined_in_order(seq![last], Seq::empty(), sep);
            if some.len() == 0 {
                assert(list =~= seq![last]);
                assert(before =~= seq![before.last()]);
            }
            assert(join(list, sep) =~= join(before, sep).push(c));
            assert(last.drop_last() =~= before.last());
            assert forall|i: int| 0 <= i < list.len() implies !has_open_comma(
                #[trigger] list[i],
            ) by {
                if i < some.len() {
                    assert(list[i] == before[i]);
                } else if has_open_comma(last) {
                    let k = choose|k: int|
                        0 <= k < last.len() && #[trigger] last[k] == ',' && depth(last.take(k))
                            == 0;
                    if k < before.last().len() {
                        assert(last.take(k) =~= before.last().take(k));
                        assert(before.last()[k] == ',');
                        assert(has_open_comma(before[before.len() - 1]));
                    } else {
                        assert(last.take(k) =~= before.last());
                    }
                }
            }
            assert forall|i: int| 0 <= i < list.len() - 1 implies depth(#[trigger] list[i])
                == 0 by {
                assert(list[i] == before[i]);
            }
        }
    }
}

// ---------------------------------------------------------------------------
// Keys
// ---------------------------------------------------------------------------
/// The columns of a `PRIMARY KEY` constraint are those that it lists in brackets; a
/// column that is the key itself names itself; and any other definition gives no key.
pub proof fn law_keys_are_those_declared(
    before: Seq<char>,
    names: Seq<Seq<char>>,
    behind: Seq<char>,
    other: Seq<char>,
)
    requires
        !before.contains('('),
        !behind.contains(')'),
        names.len() > 0,
        forall|i: int|
            0 <= i < names.len() ==> (#[trigger] names[i]).len() > 0 && is_tight(names[i])
                && !names[i].contains(','),
    ensures
        ({
            let text = before + seq!['('] + join(names, seq![',']) + seq![')'] + behind;
            begins_with(uppercase(text), "PRIMARY KEY"@) ==> definition_keys(text) == names
        }),
        !begins_with(uppercase(other), "PRIMARY KEY"@) && contains_pattern(
            uppercase(other),
            " PRIMARY KEY"@,
        ) && words(other).len() > 0 ==> definition_keys(other) == seq![words(other)[0]],
        !begins_with(uppercase(other), "PRIMARY KEY"@) && !contains_pattern(
            uppercase(other),
            " PRIMARY KEY"@,
        ) ==> definition_keys(other).len() == 0,
{
    law_what_stands_in_brackets(before, join(names, seq![',']), behind);
    lemma_split_of_join(names, ',');
    lemma_all_trimmed(names);
}

proof fn lemma_all_trimmed(names: Seq<Seq<char>>)
    requires
        forall|i: int|
            0 <= i < names.len() ==> (#[trigger] names[i]).len() > 0 && is_tight(names[i]),
    ensures
        trimmed_pieces(names) == names,
    decreases names.len(),
{
    if names.len() > 0 {
        let front = names.drop_last();
        let last = names.last();
        assert forall|i: int| 0 <= i < front.len() implies (#[trigger] front[i]).len() > 0
            && is_tight(front[i]) by {
            assert(front[i] == names[i]);
        }
        lemma_all_trimmed(front);
        assert(names[names.len() - 1] == last);
        law_pieces_are_trimmed_one_by_one(front, last);
        law_blanks_around_do_not_matter(Seq::empty(), last, Seq::empty());
        assert(Seq::<char>::empty() + last + Seq::<char>::empty() =~= last);
        assert(!is_blank(last));
        assert(front.push(last) =~= names);
    } else {
        law_pieces_are_trimmed_one_by_one(names, Seq::empty());
        assert(names =~= Seq::empty());
        assert(trimmed_pieces(names) =~= names);
    }
}

/// Texts that are joined by a character that none of them has are its pieces again.
proof fn lemma_split_of_join(list: Seq<Seq<char>>, sep: char)
    requires
        list.len() > 0,
        forall|i: int| 0 <= i < list.len() ==> !(#[trigger] list[i]).contains(sep),
    ensures
        split(join(list, seq![sep]), sep) == list,
    decreases list.len(),
{
    let front = list.drop_last();
    let last = list.last();
    assert(list =~= front + seq![last]);
    assert(list[list.len() - 1] == last);
    law_parts_are_joined_in_order(front, seq![last], seq![sep]);
    law_parts_are_joined_in_order(seq![last], Seq::empty(), seq![sep]);
    law_texts_are_cut_at_separators(last, Seq::empty(), sep);
    if front.len() > 0 {
        assert forall|i: int| 0 <= i < front.len() implies !(#[trigger] front[i]).contains(
            sep,
        ) by {
            assert(front[i] == list[i]);
        }
        lemma_split_of_join(front, sep);
        law_texts_are_cut_at_separators(join(front, seq![sep]), last, sep);
    } else {
        assert(list =~= seq![last]);
    }
}

// ---------------------------------------------------------------------------
// Lines
// ---------------------------------------------------------------------------
/// The line is blank, or a comment.
pub open spec fn says_nothing(raw: Seq<char>) -> bool {
    trim(raw).len() == 0 || begins_with(trim(raw), "--"@)
}

/// The line begins a table.
pub open spec fn creates(raw: Seq<char>) -> bool {
    !says_nothing(raw) && begins_with(uppercase(trim(raw)), "CREATE TABLE"@)
}

/// The line ends a table.
pub open spec fn closes(raw: Seq<char>) -> bool {
    !says_nothing(raw) && !creates(raw) && (begins_with(trim(raw), ");"@) || trim(raw) == ")"@)
}

/// The line defines something of a table.
pub open spec fn defines(raw: Seq<char>) -> bool {
    !says_nothing(raw) && !creates(raw) && !closes(raw)
}

/// The first word of a line, without commas behind it.
pub open spec fn first_word(raw: Seq<char>) -> Seq<char> {
    if words(trim(raw)).len() > 0 {
        trim_end_char(words(trim(raw))[0], ',')
    } else {
        Seq::empty()
    }
}

/// The line defines a column.
pub open spec fn defines_column(raw: Seq<char>) -> bool {
    defines(raw) && !constrains(trim(raw)) && first_word(raw).len() > 0
}

/// The key columns that some lines give, one line after the other.
pub open spec fn keys_of_lines(lines: Seq<Seq<char>>) -> Seq<Seq<char>>
    decreases lines.len(),
{
    if lines.len() == 0 {
        Seq::empty()
    } else {
        definition_keys(trim(lines[0])) + keys_of_lines(lines.drop_first())
    }
}

/// Blank lines and comments say nothing, wherever they stand.
pub proof fn law_comments_say_nothing(lines: Seq<Seq<char>>, raw: Seq<char>)
    requires
        says_nothing(raw),
    ensures
        read_lines(lines.push(raw)) == read_lines(lines),
{
    assert(lines.push(raw).drop_last() =~= lines);
}

/// A table that takes several lines has the columns that its lines define, in order, and
/// the keys that they give.
pub proof fn law_tables_are_read_line_by_line(
    before: Seq<Seq<char>>,
    create: Seq<char>,
    body: Seq<Seq<char>>,
    close: Seq<char>,
)
    requires
        creates(create),
        !ends_with(trim(create), ");"@),
        table_name(trim(create)).len() > 0,
        forall|i: int| 0 <= i < body.len() ==> defines(#[trigger] body[i]),
        closes(close),
    ensures
        ({
            let read = read_lines(before.push(create) + body.push(close));
            &&& read.table is None
            &&& read.tables == with_table(
                read_lines(before).tables,
                TableModel {
                    name: table_name(trim(create)),
                    columns: body.filter(|l: Seq<char>| defines_column(l)).map_values(
                        |l: Seq<char>| first_word(l),
                    ),
                    keys: keys_of_lines(body),
                },
            )
        }),
{
    let start = before.push(create);
    assert(start.drop_last() =~= before);
    let opened = read_lines(start);
    lemma_body(start, body);
    let inside = start + body;
    let all = start + body.push(close);
    assert(all.drop_last() =~= inside);
    assert(all.last() == close);
    let read = read_lines(inside);
    assert(read.columns =~= body.filter(|l: Seq<char>| defines_column(l)).map_values(
        |l: Seq<char>| first_word(l),
    ));
    assert(read.keys =~= keys_of_lines(body));
}

proof fn lemma_body(start: Seq<Seq<char>>, body: Seq<Seq<char>>)
    requires
        read_lines(start).table is Some,
        forall|i: int| 0 <= i < body.len() ==> defines(#[trigger] body[i]),
    ensures
        ({
            let opened = read_lines(start);
            read_lines(start + body) == (Reading {
                tables: opened.tables,
                table: opened.table,
                columns: opened.columns + body.filter(|l: Seq<char>| defines_column(l)).map_values(
                    |l: Seq<char>| first_word(l),
                ),
                keys: opened.keys + keys_of_lines(body),
            })
        }),
    decreases body.len(),
{
    reveal(Seq::filter);
    let opened = read_lines(start);
    let columns = body.filter(|l: Seq<char>| defines_column(l)).map_values(
        |l: Seq<char>| first_word(l),
    );
    if body.len() == 0 {
        assert(start + body =~= start);
        assert(opened.columns + columns =~= opened.columns);
        assert(opened.keys + keys_of_lines(body) =~= opened.keys);
    } else {
        let front = body.drop_last();
        let last = body.last();
        assert forall|i: int| 0 <= i < front.len() implies defines(#[trigger] front[i]) by {
            assert(front[i] == body[i]);
        }
        lemma_body(start, front);
        assert((start + body).drop_last() =~= start + front);
        assert(defines(body[body.len() - 1]));
        lemma_constraint(trim(last));
        lemma_keys_of_lines(front, last);
        assert(front.push(last) =~= body);
        let read = read_lines(start + front);
        let now = with_line(read, last);
        assert(read_lines(start + body) == now);
        let some = front.filter(|l: Seq<char>| defines_column(l)).map_values(
            |l: Seq<char>| first_word(l),
        );
        reveal_strlit("");
        assert(""@ =~= Seq::<char>::empty());
        lemma_empty_trimmed();
        if defines_column(last) {
            assert(columns =~= some.push(first_word(last)));
        } else {
            assert(columns =~= some);
        }
        assert(now.columns =~= opened.columns + columns);
        assert(now.keys =~= opened.keys + keys_of_lines(body));
    }
}

proof fn lemma_empty_trimmed()
    ensures
        trim_end_char(Seq::<char>::empty(), ',').len() == 0,
{
}

proof fn lemma_keys_of_lines(lines: Seq<Seq<char>>, line: Seq<char>)
    ensures
        keys_of_lines(lines.push(line)) == keys_of_lines(lines) + definition_keys(trim(line)),
    decreases lines.len(),
{
    let all = lines.push(line);
    if lines.len() > 0 {
        lemma_keys_of_lines(lines.drop_first(), line);
        assert(all.drop_first() =~= lines.drop_first().push(line));
        assert(keys_of_lines(all) =~= keys_of_lines(lines) + definition_keys(trim(line)));
    } else {
        assert(all.drop_first() =~= Seq::<Seq<char>>::empty());
        assert(all[0] == line);
        assert(keys_of_lines(all.drop_first()) =~= Seq::<Seq<char>>::empty());
        assert(keys_of_lines(all) =~= definition_keys(trim(line)));
        assert(keys_of_lines(lines) + definition_keys(trim(line)) =~= definition_keys(trim(line)));
    }
}

/// The piece of a line names a column.
pub open spec fn names_column(piece: Seq<char>) -> bool {
    !constrains(trim(piece)) && words(trim(piece)).len() > 0
}

/// A table on one line has the columns that stand between the commas in its brackets,
/// constraints left out, and the keys that its definitions give.
pub proof fn law_tables_on_one_line(before: Seq<Seq<char>>, raw: Seq<char>)
    requires
        creates(raw),
        ends_with(trim(raw), ");"@),
        table_name(trim(raw)).len() > 0,
    ensures
        ({
            let inner = bracketed(trim(raw));
            let read = read_lines(before.push(raw));
            &&& read.table is None
            &&& read.tables == with_table(
                read_lines(before).tables,
                TableModel {
                    name: table_name(trim(raw)),
                    columns: split(inner, ',').filter(|p: Seq<char>| names_column(p)).map_values(
                        |p: Seq<char>| words(trim(p))[0],
                    ),
                    keys: keys_of_lines(definitions(inner)),
                },
            )
        }),
{
    assert(before.push(raw).drop_last() =~= before);
    let inner = bracketed(trim(raw));
    lemma_inline(split(inner, ','));
    lemma_all_keys(definitions(inner));
}

proof fn lemma_inline(pieces: Seq<Seq<char>>)
    ensures
        inline_columns(pieces) == pieces.filter(|p: Seq<char>| names_column(p)).map_values(
            |p: Seq<char>| words(trim(p))[0],
        ),
    decreases pieces.len(),
{
    reveal(Seq::filter);
    let wanted = pieces.filter(|p: Seq<char>| names_column(p)).map_values(
        |p: Seq<char>| words(trim(p))[0],
    );
    if pieces.len() > 0 {
        lemma_inline(pieces.drop_last());
        lemma_constraint(trim(pieces.last()));
        assert(inline_columns(pieces) =~= wanted);
    } else {
        assert(inline_columns(pieces) =~= wanted);
    }
}

proof fn lemma_all_keys(list: Seq<Seq<char>>)
    ensures
        all_keys(list) == keys_of_lines(list),
    decreases list.len(),
{
    if list.len() > 0 {
        lemma_all_keys(list.drop_last());
        lemma_keys_of_lines(list.drop_last(), list.last());
        assert(list.drop_last().push(list.last()) =~= list);
    }
}

/// Lines outside of a table that begin none say nothing, and a new table takes the place
/// of one that was never closed.
pub proof fn law_only_tables_are_read(lines: Seq<Seq<char>>, raw: Seq<char>)
    ensures
        read_lines(lines).table is None && !creates(raw) ==> read_lines(lines.push(raw))
            == read_lines(lines),
        creates(raw) && !ends_with(trim(raw), ");"@) && table_name(trim(raw)).len() > 0
            ==> read_lines(lines.push(raw)) == (Reading {
            tables: read_lines(lines).tables,
            table: Some(table_name(trim(raw))),
            columns: Seq::empty(),
            keys: Seq::empty(),
        }),
{
    assert(lines.push(raw).drop_last() =~= lines);
}

/// A schema is read line by line.
pub proof fn law_schemas_are_read_line_by_line(lines: Seq<Seq<char>>)
    requires
        lines.len() > 0,
        forall|i: int| 0 <= i < lines.len() ==> !(#[trigger] lines[i]).contains('\n'),
    ensures
        schema_tables(join(lines, seq!['\n'])) == read_lines(lines).tables,
        read_lines(Seq::empty()).tables.len() == 0,
        read_lines(Seq::empty()).table is None,
{
    lemma_split_of_join(lines, '\n');
}

} // verus!
