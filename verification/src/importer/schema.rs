//! Reading the tables, columns and keys out of a schema file.
use crate::importer::catalog::{table_models, SchemaTable};
use crate::outside::std_text::{uppercase, uppercase_of};
use crate::pieces::{
    begins_with, contains_pattern, ends_with, find_char, find_last_char, has_pattern, has_prefix,
    has_suffix, index_of, last_index_of, split, split_chars, split_trimmed, split_words,
    trim, trim_end_char, trimmed, trimmed_end_char, trimmed_pieces, words,
};
use crate::text::{chars_of, clone_texts, same_text, string_of, texts, views};
use vstd::prelude::*;
use vstd::string::*;

verus! {

/// A table, its columns, and those of its primary key.
#[verifier::ext_equal]
pub struct TableModel {
    pub name: Seq<char>,
    pub columns: Seq<Seq<char>>,
    pub keys: Seq<Seq<char>>,
}

/// The tables with one more; a table of the same name is replaced.
pub open spec fn with_table(tables: Seq<TableModel>, table: TableModel) -> Seq<TableModel>
    decreases tables.len(),
{
    if tables.len() == 0 {
        seq![table]
    } else if tables[0].name == table.name {
        seq![table] + tables.drop_first()
    } else {
        seq![tables[0]] + with_table(tables.drop_first(), table)
    }
}

/// The definition, in upper case, is no column but a constraint.
pub open spec fn is_constraint(upper: Seq<char>) -> bool {
    begins_with(upper, "PRIMARY KEY"@) || begins_with(upper, "FOREIGN KEY"@) || begins_with(
        upper,
        "UNIQUE"@,
    ) || begins_with(upper, "CHECK"@)
}

/// The word at an index, or nothing behind the end.
pub open spec fn word_at(parts: Seq<Seq<char>>, i: int) -> Seq<char> {
    if 0 <= i < parts.len() {
        parts[i]
    } else {
        ""@
    }
}

/// The word that names the table: behind `EXISTS`, or behind a `TABLE` that no
/// `IF` follows, or before the first word that opens a bracket.
pub open spec fn table_word(parts: Seq<Seq<char>>, i: int, found: Seq<char>) -> Seq<char>
    decreases parts.len() - i,
{
    if i < 0 || i >= parts.len() {
        found
    } else if begins_with(parts[i], "("@) {
        word_at(
            parts,
            if i > 0 {
                i - 1
            } else {
                0
            },
        )
    } else if uppercase(parts[i]) == "EXISTS"@ || (uppercase(parts[i]) == "TABLE"@ && !(i + 1
        < parts.len() && uppercase(parts[i + 1]) == "IF"@)) {
        table_word(parts, i + 1, word_at(parts, i + 1))
    } else {
        table_word(parts, i + 1, found)
    }
}

/// The name of the table that a `CREATE TABLE` line begins.
pub open spec fn table_name(line: Seq<char>) -> Seq<char> {
    trim_end_char(table_word(words(line), 0, ""@), '(')
}

/// The columns that some definitions on one line give.
pub open spec fn inline_columns(definitions: Seq<Seq<char>>) -> Seq<Seq<char>>
    decreases definitions.len(),
{
    if definitions.len() == 0 {
        seq![]
    } else {
        let front = inline_columns(definitions.drop_last());
        let definition = trim(definitions.last());
        if is_constraint(uppercase(definition)) || words(definition).len() == 0 {
            front
        } else {
            front.push(words(definition)[0])
        }
    }
}

/// What stands between the first opening and the last closing bracket.
pub open spec fn bracketed(text: Seq<char>) -> Seq<char> {
    let start = find_char(text, '(');
    let end = find_last_char(text, ')');
    if start < text.len() && start < end {
        text.subrange(start + 1, end)
    } else {
        seq![]
    }
}

/// The key columns that a definition gives: those of a `PRIMARY KEY` constraint,
/// or the column itself where it is the key.
pub open spec fn definition_keys(definition: Seq<char>) -> Seq<Seq<char>> {
    let upper = uppercase(definition);
    if begins_with(upper, "PRIMARY KEY"@) {
        trimmed_pieces(split(bracketed(definition), ','))
    } else if contains_pattern(upper, " PRIMARY KEY"@) && words(definition).len() > 0 {
        seq![words(definition)[0]]
    } else {
        seq![]
    }
}

/// How many brackets are open behind a text.
pub open spec fn depth(text: Seq<char>) -> int
    decreases text.len(),
{
    if text.len() == 0 {
        0
    } else {
        depth(text.drop_last()) + if text.last() == '(' {
            1int
        } else if text.last() == ')' {
            -1int
        } else {
            0int
        }
    }
}

/// The definitions of a text, parted by the commas outside of brackets.
pub open spec fn definitions(text: Seq<char>) -> Seq<Seq<char>>
    decreases text.len(),
{
    if text.len() == 0 {
        seq![seq![]]
    } else {
        let front = definitions(text.drop_last());
        if text.last() == ',' && depth(text.drop_last()) == 0 {
            front.push(seq![])
        } else {
            front.drop_last().push(front.last().push(text.last()))
        }
    }
}

/// The key columns that some definitions give.
pub open spec fn all_keys(list: Seq<Seq<char>>) -> Seq<Seq<char>>
    decreases list.len(),
{
    if list.len() == 0 {
        seq![]
    } else {
        all_keys(list.drop_last()) + definition_keys(trim(list.last()))
    }
}

/// What is read of a schema so far.
#[verifier::ext_equal]
pub struct Reading {
    pub tables: Seq<TableModel>,
    /// The table whose definitions are being read.
    pub table: Option<Seq<char>>,
    pub columns: Seq<Seq<char>>,
    pub keys: Seq<Seq<char>>,
}

/// Before the first line.
pub open spec fn nothing_read() -> Reading {
    Reading { tables: seq![], table: None, columns: seq![], keys: seq![] }
}

/// A line that begins a table, and may end it too.
pub open spec fn create_line(state: Reading, line: Seq<char>) -> Reading {
    let name = table_name(line);
    if name.len() == 0 {
        state
    } else if ends_with(line, ");"@) {
        let columns = inline_columns(split(bracketed(line), ','));
        let keys = all_keys(definitions(bracketed(line)));
        Reading {
            tables: with_table(state.tables, TableModel { name, columns, keys }),
            table: None,
            columns,
            keys,
        }
    } else {
        Reading { tables: state.tables, table: Some(name), columns: seq![], keys: seq![] }
    }
}

/// A line between the first and the last of a table.
pub open spec fn table_line(state: Reading, name: Seq<char>, line: Seq<char>) -> Reading {
    if begins_with(line, ");"@) || line == ")"@ {
        Reading {
            tables: with_table(
                state.tables,
                TableModel { name, columns: state.columns, keys: state.keys },
            ),
            table: None,
            ..state
        }
    } else {
        let column = trim_end_char(word_at(words(line), 0), ',');
        Reading {
            columns: if is_constraint(uppercase(line)) || column.len() == 0 {
                state.columns
            } else {
                state.columns.push(column)
            },
            keys: state.keys + definition_keys(line),
            ..state
        }
    }
}

/// What one more line of a schema gives.
pub open spec fn with_line(state: Reading, raw: Seq<char>) -> Reading {
    let line = trim(raw);
    if line.len() == 0 || begins_with(line, "--"@) {
        state
    } else if begins_with(uppercase(line), "CREATE TABLE"@) {
        create_line(state, line)
    } else {
        match state.table {
            Some(name) => table_line(state, name, line),
            None => state,
        }
    }
}

/// What some lines of a schema give.
pub open spec fn read_lines(lines: Seq<Seq<char>>) -> Reading
    decreases lines.len(),
{
    if lines.len() == 0 {
        nothing_read()
    } else {
        with_line(read_lines(lines.drop_last()), lines.last())
    }
}

/// The tables of a schema.
pub open spec fn schema_tables(sql: Seq<char>) -> Seq<TableModel> {
    read_lines(split(sql, '\n')).tables
}

// ---------------------------------------------------------------------------
// The reader
// ---------------------------------------------------------------------------
fn upper_chars(chars: &[char]) -> (upper: Vec<char>)
    ensures
        upper@ == uppercase(chars@),
{
    chars_of(uppercase_of(string_of(chars).as_str()).as_str())
}

fn starts(chars: &[char], prefix: &str) -> (yes: bool)
    ensures
        yes == begins_with(chars@, prefix@),
{
    has_prefix(chars, chars_of(prefix).as_slice())
}

fn constraint(upper: &[char]) -> (yes: bool)
    ensures
        yes == is_constraint(upper@),
{
    starts(upper, "PRIMARY KEY") || starts(upper, "FOREIGN KEY") || starts(upper, "UNIQUE")
        || starts(upper, "CHECK")
}

fn is_text(chars: &[char], text: &str) -> (yes: bool)
    ensures
        yes == (chars@ == text@),
{
    same_text(string_of(chars).as_str(), text)
}

/// The name of the table that a `CREATE TABLE` line begins.
fn read_table_name(line: &[char]) -> (name: String)
    ensures
        name@ == table_name(line@),
{
    let parts = split_words(line);
    let ghost all = views(parts@);
    let mut found: Vec<char> = Vec::new();
    let mut i: usize = 0;
    proof {
        reveal_strlit("");
        assert(found@ =~= ""@);
    }
    while i < parts.len()
        invariant_except_break
            i <= parts@.len(),
            all == views(parts@),
            table_word(all, 0, ""@) == table_word(all, i as int, found@),
        invariant
            all == views(parts@),
            all == words(line@),
        ensures
            found@ == table_word(all, 0, ""@),
        decreases parts.len() - i,
    {
        assert(all[i as int] == parts@[i as int]@);
        if starts(parts[i].as_slice(), "(") {
            let before: usize = if i > 0 {
                i - 1
            } else {
                0
            };
            found = parts[before].clone();
            assert(found@ =~= parts@[before as int]@);
            break;
        }
        let upper = upper_chars(parts[i].as_slice());
        let mut names_next = is_text(upper.as_slice(), "EXISTS");
        if !names_next && is_text(upper.as_slice(), "TABLE") {
            names_next = true;
            if i + 1 < parts.len() {
                let next_upper = upper_chars(parts[i + 1].as_slice());
                assert(all[i + 1] == parts@[i + 1]@);
                if is_text(next_upper.as_slice(), "IF") {
                    names_next = false;
                }
            }
        }
        if names_next {
            if i + 1 < parts.len() {
                found = parts[i + 1].clone();
                assert(found@ =~= parts@[i + 1]@);
            } else {
                found = Vec::new();
                proof {
                    reveal_strlit("");
                    assert(found@ =~= ""@);
                }
            }
        }
        i += 1;
    }
    string_of(trimmed_end_char(found.as_slice(), '('))
}

/// What stands between the first opening and the last closing bracket.
fn read_bracketed(text: &[char]) -> (inner: Option<&[char]>)
    ensures
        match inner {
            Some(chars) => chars@ == bracketed(text@),
            None => bracketed(text@) == Seq::<char>::empty(),
        },
{
    let start: usize = index_of(text, '(');
    if start == text.len() {
        return None;
    }
    match last_index_of(text, ')') {
        Some(end) => {
            if start < end {
                let inner = vstd::slice::slice_subrange(text, start + 1, end);
                assert(inner@ =~= text@.subrange(start + 1, end as int));
                Some(inner)
            } else {
                None
            }
        },
        None => None,
    }
}

/// The columns that the definitions of one line give.
fn read_inline_columns(text: &[char]) -> (columns: Vec<String>)
    ensures
        texts(columns@) == inline_columns(split(text@, ',')),
{
    let parts = split_chars(text, ',');
    let mut columns: Vec<String> = Vec::new();
    let mut i: usize = 0;
    assert(texts(columns@) =~= seq![]);
    while i < parts.len()
        invariant
            i <= parts@.len(),
            texts(columns@) == inline_columns(views(parts@).take(i as int)),
        decreases parts.len() - i,
    {
        let ghost so_far = views(parts@).take(i + 1);
        assert(so_far.drop_last() =~= views(parts@).take(i as int));
        assert(so_far.last() == parts@[i as int]@);
        let definition = trimmed(parts[i].as_slice());
        let upper = upper_chars(definition);
        let ghost before = columns@;
        if !constraint(upper.as_slice()) {
            let list = split_words(definition);
            if list.len() > 0 {
                let column = string_of(list[0].as_slice());
                assert(words(definition@)[0] == list@[0]@) by {
                    assert(views(list@)[0] == list@[0]@);
                }
                columns.push(column);
                assert(texts(columns@) =~= texts(before).push(column@));
            } else {
                assert(views(list@).len() == 0);
            }
        }
        i += 1;
    }
    assert(views(parts@).take(parts@.len() as int) =~= views(parts@));
    columns
}

/// The key columns that a definition gives.
fn read_definition_keys(definition: &[char]) -> (keys: Vec<String>)
    ensures
        texts(keys@) == definition_keys(definition@),
{
    let upper = upper_chars(definition);
    if starts(upper.as_slice(), "PRIMARY KEY") {
        return match read_bracketed(definition) {
            Some(inner) => split_trimmed(inner, ','),
            None => {
                let nothing: Vec<char> = Vec::new();
                assert(nothing@ =~= bracketed(definition@));
                split_trimmed(nothing.as_slice(), ',')
            },
        };
    }
    let mut keys: Vec<String> = Vec::new();
    if has_pattern(upper.as_slice(), chars_of(" PRIMARY KEY").as_slice()) {
        let list = split_words(definition);
        assert(views(list@).len() == list@.len());
        if list.len() > 0 {
            assert(views(list@)[0] == list@[0]@);
            keys.push(string_of(list[0].as_slice()));
            assert(texts(keys@) =~= seq![words(definition@)[0]]);
            return keys;
        }
    }
    assert(texts(keys@) =~= seq![]);
    keys
}

/// The definitions of a text, parted by the commas outside of brackets.
fn read_definitions(text: &[char]) -> (list: Vec<Vec<char>>)
    ensures
        views(list@) == definitions(text@),
{
    let mut done: Vec<Vec<char>> = Vec::new();
    let mut current: Vec<char> = Vec::new();
    let mut open: i128 = 0;
    let mut i: usize = 0;
    assert(views(done@).push(current@) =~= seq![seq![]]);
    while i < text.len()
        invariant
            i <= text@.len(),
            -(i as int) <= open <= i,
            open == depth(text@.take(i as int)),
            views(done@).push(current@) == definitions(text@.take(i as int)),
        decreases text.len() - i,
    {
        let c = text[i];
        let ghost front = definitions(text@.take(i as int));
        let ghost before = done@;
        let ghost piece = current@;
        proof {
            assert(text@.take(i + 1).drop_last() =~= text@.take(i as int));
            assert(front.drop_last() =~= views(before));
            assert(front.last() == piece);
        }
        if c == ',' && open == 0 {
            done.push(current);
            current = Vec::new();
            assert(views(done@) =~= views(before).push(piece));
        } else {
            current.push(c);
        }
        if c == '(' {
            open = open + 1;
        } else if c == ')' {
            open = open - 1;
        }
        i += 1;
    }
    assert(text@.take(text@.len() as int) =~= text@);
    let ghost before = done@;
    let ghost piece = current@;
    done.push(current);
    assert(views(done@) =~= views(before).push(piece));
    done
}

/// The key columns that the definitions of one line give.
fn read_all_keys(text: &[char]) -> (keys: Vec<String>)
    ensures
        texts(keys@) == all_keys(definitions(text@)),
{
    let list = read_definitions(text);
    let mut keys: Vec<String> = Vec::new();
    let mut i: usize = 0;
    assert(texts(keys@) =~= seq![]);
    while i < list.len()
        invariant
            i <= list@.len(),
            texts(keys@) == all_keys(views(list@).take(i as int)),
        decreases list.len() - i,
    {
        let ghost so_far = views(list@).take(i + 1);
        assert(so_far.drop_last() =~= views(list@).take(i as int));
        assert(so_far.last() == list@[i as int]@);
        let ghost before = keys@;
        let mut more = read_definition_keys(trimmed(list[i].as_slice()));
        let ghost added = more@;
        keys.append(&mut more);
        assert(texts(keys@) =~= texts(before) + texts(added));
        i += 1;
    }
    assert(views(list@).take(list@.len() as int) =~= views(list@));
    keys
}

/// Reads a schema line by line.
struct SchemaReader {
    tables: Vec<SchemaTable>,
    table: Option<String>,
    columns: Vec<String>,
    keys: Vec<String>,
}

impl View for SchemaReader {
    type V = Reading;

    closed spec fn view(&self) -> Reading {
        Reading {
            tables: table_models(self.tables@),
            table: match self.table {
                Some(name) => Some(name@),
                None => None,
            },
            columns: texts(self.columns@),
            keys: texts(self.keys@),
        }
    }
}

/// Adds a table, in place of one of the same name.
fn insert_table(tables: &mut Vec<SchemaTable>, table: SchemaTable)
    ensures
        table_models(final(tables)@) == with_table(
            table_models(old(tables)@),
            TableModel {
                name: table.table@,
                columns: texts(table.columns@),
                keys: texts(table.keys@),
            },
        ),
{
    let ghost before = tables@;
    let ghost model = TableModel {
        name: table.table@,
        columns: texts(table.columns@),
        keys: texts(table.keys@),
    };
    let mut i: usize = 0;
    while i < tables.len()
        invariant
            i <= tables@.len(),
            tables@ == before,
            before == old(tables)@,
            model == (TableModel {
                name: table.table@,
                columns: texts(table.columns@),
                keys: texts(table.keys@),
            }),
            forall|k: int| 0 <= k < i ==> (#[trigger] before[k]).table@ != model.name,
        decreases tables.len() - i,
    {
        if same_text(tables[i].table.as_str(), table.table.as_str()) {
            proof {
                lemma_with_table(table_models(before), model, i as int);
            }
            tables.set(i, table);
            assert(table_models(tables@) =~= table_models(before).update(i as int, model));
            return;
        }
        i += 1;
    }
    proof {
        lemma_with_table(table_models(before), model, i as int);
    }
    tables.push(table);
    assert(table_models(tables@) =~= table_models(before).push(model));
}

/// Adding a table is an update where one of the same name comes first, and else
/// a push.
proof fn lemma_with_table(tables: Seq<TableModel>, table: TableModel, at: int)
    requires
        0 <= at <= tables.len(),
        forall|k: int| 0 <= k < at ==> (#[trigger] tables[k]).name != table.name,
        at < tables.len() ==> tables[at].name == table.name,
    ensures
        with_table(tables, table) == if at < tables.len() {
            tables.update(at, table)
        } else {
            tables.push(table)
        },
    decreases tables.len(),
{
    if tables.len() > 0 {
        let rest = tables.drop_first();
        if at == 0 {
            assert(seq![table] + rest =~= tables.update(0, table));
        } else {
            assert(tables[0].name != table.name);
            assert forall|k: int| 0 <= k < at - 1 implies (#[trigger] rest[k]).name != table.name by {
                assert(rest[k] == tables[k + 1]);
            }
            lemma_with_table(rest, table, at - 1);
            if at < tables.len() {
                assert(seq![tables[0]] + rest.update(at - 1, table) =~= tables.update(at, table));
            } else {
                assert(seq![tables[0]] + rest.push(table) =~= tables.push(table));
            }
        }
    } else {
        assert(seq![table] =~= tables.push(table));
    }
}

impl SchemaReader {
    fn create(&mut self, line: &[char])
        ensures
            final(self)@ == create_line(old(self)@, line@),
    {
        let name = read_table_name(line);
        if name.as_str().as_bytes().len() == 0 {
            proof {
                lemma_no_bytes(name@);
            }
            return;
        }
        proof {
            lemma_no_bytes(name@);
        }
        if !has_suffix(line, chars_of(");").as_slice()) {
            self.table = Some(name);
            self.columns = Vec::new();
            self.keys = Vec::new();
            assert(texts(self.columns@) =~= seq![]);
            assert(texts(self.keys@) =~= seq![]);
            return;
        }
        let empty: Vec<char> = Vec::new();
        let (columns, keys) = match read_bracketed(line) {
            Some(inner) => (read_inline_columns(inner), read_all_keys(inner)),
            None => {
                assert(empty@ =~= bracketed(line@));
                (read_inline_columns(empty.as_slice()), read_all_keys(empty.as_slice()))
            },
        };
        let table = SchemaTable {
            table: name,
            columns: clone_texts(&columns),
            keys: clone_texts(&keys),
        };
        insert_table(&mut self.tables, table);
        self.table = None;
        self.columns = columns;
        self.keys = keys;
    }

    fn inside(&mut self, name: String, line: &[char])
        requires
            old(self)@.table == Some(name@),
        ensures
            final(self)@ == table_line(old(self)@, name@, line@),
    {
        if starts(line, ");") || is_text(line, ")") {
            let table = SchemaTable {
                table: name,
                columns: clone_texts(&self.columns),
                keys: clone_texts(&self.keys),
            };
            insert_table(&mut self.tables, table);
            self.table = None;
            return;
        }
        let upper = upper_chars(line);
        let ghost columns_before = self.columns@;
        let ghost keys_before = self.keys@;
        let list = split_words(line);
        assert(views(list@).len() == list@.len());
        if !constraint(upper.as_slice()) && list.len() > 0 {
            assert(views(list@)[0] == list@[0]@);
            let column = trimmed_end_char(list[0].as_slice(), ',');
            if column.len() > 0 {
                let text = string_of(column);
                self.columns.push(text);
                assert(texts(self.columns@) =~= texts(columns_before).push(text@));
            }
        }
        proof {
            if list@.len() == 0 {
                reveal_strlit("");
                assert(trim_end_char(""@, ',').len() == 0);
            }
        }
        let mut more = read_definition_keys(line);
        let ghost added = more@;
        self.keys.append(&mut more);
        assert(texts(self.keys@) =~= texts(keys_before) + texts(added));
    }

    /// Reads one more line.
    fn line(&mut self, raw: &[char])
        ensures
            final(self)@ == with_line(old(self)@, raw@),
    {
        let line = trimmed(raw);
        if line.len() == 0 || starts(line, "--") {
            return;
        }
        let upper = upper_chars(line);
        if starts(upper.as_slice(), "CREATE TABLE") {
            self.create(line);
            return;
        }
        let name = match &self.table {
            Some(name) => name.clone(),
            None => return,
        };
        self.inside(name, line);
    }
}

/// A text without bytes is empty.
proof fn lemma_no_bytes(text: Seq<char>)
    ensures
        vstd::utf8::encode_utf8(text).len() == 0 <==> text.len() == 0,
{
    if text.len() > 0 {
        assert(vstd::utf8::encode_scalar(text[0] as u32).len() > 0);
    }
}

/// The tables of a schema, each with its columns and its keys. A table that is
/// created again replaces the one before.
pub fn parse_schema_file(sql: &str) -> (tables: Vec<SchemaTable>)
    ensures
        table_models(tables@) == schema_tables(sql@),
{
    let lines = split_chars(chars_of(sql).as_slice(), '\n');
    let mut reader = SchemaReader {
        tables: Vec::new(),
        table: None,
        columns: Vec::new(),
        keys: Vec::new(),
    };
    assert(reader@ =~= nothing_read());
    let mut i: usize = 0;
    while i < lines.len()
        invariant
            i <= lines@.len(),
            reader@ == read_lines(views(lines@).take(i as int)),
        decreases lines.len() - i,
    {
        let ghost so_far = views(lines@).take(i + 1);
        assert(so_far.drop_last() =~= views(lines@).take(i as int));
        assert(so_far.last() == lines@[i as int]@);
        reader.line(lines[i].as_slice());
        i += 1;
    }
    assert(views(lines@).take(lines@.len() as int) =~= views(lines@));
    reader.tables
}

/// No two tables have the same name.
pub open spec fn has_distinct_names(tables: Seq<TableModel>) -> bool {
    forall|i: int, j: int|
        0 <= i < j < tables.len() ==> (#[trigger] tables[i]).name != (#[trigger] tables[j]).name
}

proof fn lemma_with_table_keeps_distinct(tables: Seq<TableModel>, table: TableModel)
    requires
        has_distinct_names(tables),
    ensures
        has_distinct_names(with_table(tables, table)),
{
    let at = first_of_name(tables, table.name);
    lemma_first_of_name(tables, table.name);
    lemma_with_table(tables, table, at);
}

spec fn first_of_name(tables: Seq<TableModel>, name: Seq<char>) -> int
    decreases tables.len(),
{
    if tables.len() == 0 || tables[0].name == name {
        0
    } else {
        1 + first_of_name(tables.drop_first(), name)
    }
}

proof fn lemma_first_of_name(tables: Seq<TableModel>, name: Seq<char>)
    ensures
        0 <= first_of_name(tables, name) <= tables.len(),
        forall|k: int|
            0 <= k < first_of_name(tables, name) ==> (#[trigger] tables[k]).name != name,
        first_of_name(tables, name) < tables.len() ==> tables[first_of_name(tables, name)].name
            == name,
    decreases tables.len(),
{
    if tables.len() > 0 && tables[0].name != name {
        let rest = tables.drop_first();
        lemma_first_of_name(rest, name);
        assert forall|k: int| 0 <= k < first_of_name(tables, name) implies (
        #[trigger] tables[k]).name != name by {
            if k > 0 {
                assert(rest[k - 1] == tables[k]);
            }
        }
    }
}

proof fn lemma_lines_keep_distinct(lines: Seq<Seq<char>>)
    ensures
        has_distinct_names(read_lines(lines).tables),
    decreases lines.len(),
{
    if lines.len() > 0 {
        lemma_lines_keep_distinct(lines.drop_last());
        let before = read_lines(lines.drop_last());
        let line = trim(lines.last());
        lemma_with_table_keeps_distinct(
            before.tables,
            TableModel {
                name: table_name(line),
                columns: inline_columns(split(bracketed(line), ',')),
                keys: all_keys(definitions(bracketed(line))),
            },
        );
        if let Some(name) = before.table {
            lemma_with_table_keeps_distinct(
                before.tables,
                TableModel { name, columns: before.columns, keys: before.keys },
            );
        }
    }
}

/// Every table of a schema is listed once, however often it is created.
pub proof fn law_tables_are_listed_once(sql: Seq<char>)
    ensures
        has_distinct_names(schema_tables(sql)),
{
    lemma_lines_keep_distinct(split(sql, '\n'));
}

} // verus!
