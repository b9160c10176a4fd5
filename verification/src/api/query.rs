//! The query for rows of a table, from the parameters of a request: which
//! columns, which rows, in which order, and how many.
use crate::api::database::{Refusal, Refused};
use crate::number::{decimal, parse_text, parse_unsigned, push_decimal};
use crate::pieces::{
    find_char, find_last_char, index_of, join, join_texts, last_index_of, lemma_find_char, split,
    split_chars, split_trimmed, trim, trimmed, trimmed_pieces,
};
use crate::text::{chars_of, contains_text, same_text, string_of, texts, views};
use vstd::prelude::*;
use vstd::string::*;

verus! {

/// The rows that a request gets where it does not say.
pub const DEFAULT_LIMIT: u64 = 100;

/// The most rows that a request gets.
pub const MAX_LIMIT: u64 = 1000;

/// A parameter of a request.
#[derive(Debug)]
pub struct Parameter {
    pub key: String,
    pub value: String,
}

/// The keys and values of some parameters.
pub open spec fn pairs(parameters: Seq<Parameter>) -> Seq<(Seq<char>, Seq<char>)> {
    parameters.map_values(|p: Parameter| (p.key@, p.value@))
}

/// The value of the first parameter of a key.
pub open spec fn first_value(parameters: Seq<(Seq<char>, Seq<char>)>, key: Seq<char>) -> Option<Seq<char>>
    decreases parameters.len(),
{
    if parameters.len() == 0 {
        None
    } else if parameters[0].0 == key {
        Some(parameters[0].1)
    } else {
        first_value(parameters.drop_first(), key)
    }
}

fn find_value<'a>(parameters: &'a Vec<Parameter>, key: &str) -> (value: Option<&'a String>)
    ensures
        match value {
            Some(text) => first_value(pairs(parameters@), key@) == Some(text@),
            None => first_value(pairs(parameters@), key@) is None,
        },
{
    let mut i: usize = 0;
    assert(pairs(parameters@).skip(0) =~= pairs(parameters@));
    while i < parameters.len()
        invariant
            i <= parameters@.len(),
            first_value(pairs(parameters@), key@) == first_value(pairs(parameters@).skip(i as int), key@),
        decreases parameters.len() - i,
    {
        assert(pairs(parameters@).skip(i as int).drop_first() =~= pairs(parameters@).skip(i + 1));
        if same_text(parameters[i].key.as_str(), key) {
            return Some(&parameters[i].value);
        }
        i += 1;
    }
    None
}

// ---------------------------------------------------------------------------
// Pages
// ---------------------------------------------------------------------------
/// The number that the first parameter of a key gives, or a default.
pub open spec fn count_value(parameters: Seq<(Seq<char>, Seq<char>)>, key: Seq<char>, default: nat) -> nat {
    match first_value(parameters, key) {
        Some(text) => match parse_unsigned(text, u32::MAX as nat) {
            Some(n) => n,
            None => default,
        },
        None => default,
    }
}

/// The rows that a request gets: as many as it asks for, up to the maximum.
pub open spec fn row_limit(parameters: Seq<(Seq<char>, Seq<char>)>) -> nat {
    let asked = count_value(parameters, "limit"@, DEFAULT_LIMIT as nat);
    if asked < MAX_LIMIT {
        asked
    } else {
        MAX_LIMIT as nat
    }
}

fn read_count(parameters: &Vec<Parameter>, key: &str, default: u64) -> (count: u64)
    ensures
        count == count_value(pairs(parameters@), key@, default as nat),
{
    match find_value(parameters, key) {
        Some(text) => match parse_text(text.as_str(), u32::MAX as u64) {
            Some(n) => n,
            None => default,
        },
        None => default,
    }
}

// ---------------------------------------------------------------------------
// Columns
// ---------------------------------------------------------------------------
/// A column in quotes.
pub open spec fn in_quotes(column: Seq<char>) -> Seq<char> {
    "\""@ + column + "\""@
}

/// The columns of a list, in quotes and parted by commas.
pub open spec fn quoted_list(columns: Seq<Seq<char>>) -> Seq<char> {
    join(columns.map_values(|c: Seq<char>| in_quotes(c)), ", "@)
}

/// The first column of a list that is not valid.
pub open spec fn first_invalid(list: Seq<Seq<char>>, valid: Seq<Seq<char>>) -> Option<Seq<char>>
    decreases list.len(),
{
    if list.len() == 0 {
        None
    } else if !valid.contains(list[0]) {
        Some(list[0])
    } else {
        first_invalid(list.drop_first(), valid)
    }
}

/// The columns that a list leaves of the valid ones.
pub open spec fn not_excluded(valid: Seq<Seq<char>>, list: Seq<Seq<char>>) -> Seq<Seq<char>>
    decreases valid.len(),
{
    if valid.len() == 0 {
        seq![]
    } else {
        let front = not_excluded(valid.drop_last(), list);
        if list.contains(valid.last()) {
            front
        } else {
            front.push(valid.last())
        }
    }
}

/// A refusal about a column or a format.
pub open spec fn bad_request(message: Seq<char>) -> Refused {
    Refused { message, status: 400 }
}

/// The columns that a request selects: those it lists, or all but those it
/// excludes, or all.
pub open spec fn selection(parameters: Seq<(Seq<char>, Seq<char>)>, valid: Seq<Seq<char>>) -> Result<
    Seq<char>,
    Refused,
> {
    match first_value(parameters, "include"@) {
        Some(value) => {
            let list = trimmed_pieces(split(value, ','));
            match first_invalid(list, valid) {
                Some(column) => Err(bad_request("Invalid include column: "@ + column)),
                None => Ok(quoted_list(list)),
            }
        },
        None => match first_value(parameters, "exclude"@) {
            Some(value) => {
                let list = trimmed_pieces(split(value, ','));
                let left = not_excluded(valid, list);
                match first_invalid(list, valid) {
                    Some(column) => Err(bad_request("Invalid exclude column: "@ + column)),
                    None => if left.len() == 0 {
                        Err(bad_request("Cannot exclude all columns"@))
                    } else {
                        Ok(quoted_list(left))
                    },
                }
            },
            None => Ok("*"@),
        },
    }
}

fn push_quoted(out: &mut String, column: &str)
    ensures
        final(out)@ == old(out)@ + in_quotes(column@),
{
    let ghost before = out@;
    out.append("\"");
    out.append(column);
    out.append("\"");
    assert(out@ =~= before + in_quotes(column@));
}

fn write_quoted_list(columns: &Vec<String>) -> (text: String)
    ensures
        text@ == quoted_list(texts(columns@)),
{
    let mut list: Vec<String> = Vec::new();
    let mut i: usize = 0;
    while i < columns.len()
        invariant
            i <= columns@.len(),
            list@.len() == i,
            forall|k: int| 0 <= k < i ==> (#[trigger] list@[k])@ == in_quotes(columns@[k]@),
        decreases columns.len() - i,
    {
        let mut item = String::new();
        push_quoted(&mut item, columns[i].as_str());
        assert(item@ =~= in_quotes(columns@[i as int]@));
        list.push(item);
        i += 1;
    }
    assert(texts(list@) =~= texts(columns@).map_values(|c: Seq<char>| in_quotes(c)));
    join_texts(&list, ", ")
}

fn find_invalid(list: &Vec<String>, valid: &Vec<String>) -> (index: Option<usize>)
    ensures
        match index {
            Some(i) => i < list@.len() && first_invalid(texts(list@), texts(valid@)) == Some(
                list@[i as int]@,
            ),
            None => first_invalid(texts(list@), texts(valid@)) is None,
        },
{
    let ghost all = texts(list@);
    let mut i: usize = 0;
    assert(all.skip(0) =~= all);
    while i < list.len()
        invariant
            i <= list@.len(),
            all == texts(list@),
            first_invalid(all, texts(valid@)) == first_invalid(all.skip(i as int), texts(valid@)),
        decreases list.len() - i,
    {
        assert(all.skip(i as int).drop_first() =~= all.skip(i + 1));
        assert(all.skip(i as int)[0] == list@[i as int]@);
        if !contains_text(valid, list[i].as_str()) {
            return Some(i);
        }
        i += 1;
    }
    None
}

fn leave_out(valid: &Vec<String>, list: &Vec<String>) -> (left: Vec<String>)
    ensures
        texts(left@) == not_excluded(texts(valid@), texts(list@)),
{
    let mut left: Vec<String> = Vec::new();
    let mut i: usize = 0;
    assert(texts(left@) =~= seq![]);
    while i < valid.len()
        invariant
            i <= valid@.len(),
            texts(left@) == not_excluded(texts(valid@.take(i as int)), texts(list@)),
        decreases valid.len() - i,
    {
        let ghost so_far = texts(valid@.take(i + 1));
        assert(so_far.drop_last() =~= texts(valid@.take(i as int)));
        assert(so_far.last() == valid@[i as int]@);
        let ghost before = left@;
        if !contains_text(list, valid[i].as_str()) {
            let column = valid[i].clone();
            left.push(column);
            assert(texts(left@) =~= texts(before).push(column@));
        }
        i += 1;
    }
    assert(valid@.take(valid@.len() as int) =~= valid@);
    left
}

fn select_columns(parameters: &Vec<Parameter>, valid: &Vec<String>) -> (selected: Result<
    String,
    Refusal,
>)
    ensures
        match selected {
            Ok(text) => selection(pairs(parameters@), texts(valid@)) == Ok::<Seq<char>, Refused>(text@),
            Err(refusal) => selection(pairs(parameters@), texts(valid@)) == Err::<Seq<char>, Refused>(
                refusal@,
            ),
        },
{
    if let Some(value) = find_value(parameters, "include") {
        let list = split_trimmed(chars_of(value.as_str()).as_slice(), ',');
        if let Some(i) = find_invalid(&list, valid) {
            return Err(Refusal::named("Invalid include column: ", list[i].as_str(), 400));
        }
        return Ok(write_quoted_list(&list));
    }
    if let Some(value) = find_value(parameters, "exclude") {
        let list = split_trimmed(chars_of(value.as_str()).as_slice(), ',');
        let left = leave_out(valid, &list);
        if let Some(i) = find_invalid(&list, valid) {
            return Err(Refusal::named("Invalid exclude column: ", list[i].as_str(), 400));
        }
        assert(texts(left@).len() == left@.len());
        if left.len() == 0 {
            return Err(Refusal::new("Cannot exclude all columns", 400));
        }
        return Ok(write_quoted_list(&left));
    }
    Ok("*".to_owned())
}

// ---------------------------------------------------------------------------
// Filters
// ---------------------------------------------------------------------------
/// The conditions on rows so far, and the values of their placeholders.
#[verifier::ext_equal]
pub struct Conditions {
    pub clauses: Seq<Seq<char>>,
    pub values: Seq<Seq<char>>,
}

/// How a filter compares.
#[derive(Clone, Copy, Debug, PartialEq, Eq, Structural)]
pub enum FilterKind {
    /// The value is the same.
    Filter,
    /// The value is the same but for case.
    IFilter,
    /// The value stands in the column.
    Contains,
    /// The value stands in the column but for case.
    IContains,
}

impl FilterKind {
    /// The key of the parameter.
    pub open spec fn key(self) -> Seq<char> {
        match self {
            FilterKind::Filter => "filter"@,
            FilterKind::IFilter => "ifilter"@,
            FilterKind::Contains => "contains"@,
            FilterKind::IContains => "icontains"@,
        }
    }

    /// The operator between the column and the placeholder.
    pub open spec fn operator(self) -> Seq<char> {
        match self {
            FilterKind::Filter => "="@,
            FilterKind::IFilter => "COLLATE NOCASE ="@,
            FilterKind::Contains => ""@,
            FilterKind::IContains => "LIKE"@,
        }
    }

    fn key_text(&self) -> (key: &'static str)
        ensures
            key@ == self.key(),
    {
        match self {
            FilterKind::Filter => "filter",
            FilterKind::IFilter => "ifilter",
            FilterKind::Contains => "contains",
            FilterKind::IContains => "icontains",
        }
    }

    fn operator_text(&self) -> (operator: &'static str)
        ensures
            operator@ == self.operator(),
    {
        match self {
            FilterKind::Filter => "=",
            FilterKind::IFilter => "COLLATE NOCASE =",
            FilterKind::Contains => "",
            FilterKind::IContains => "LIKE",
        }
    }
}

/// The condition that a filter puts on a column, with the placeholder of a number.
pub open spec fn filter_clause(kind: FilterKind, column: Seq<char>, number: nat) -> Seq<char> {
    match kind {
        FilterKind::Contains => "INSTR("@ + in_quotes(column) + ", ?"@ + decimal(number) + ") > 0"@,
        _ => in_quotes(column) + " "@ + kind.operator() + " ?"@ + decimal(number),
    }
}

/// The value of the placeholder of a filter.
pub open spec fn filter_value(kind: FilterKind, value: Seq<char>) -> Seq<char> {
    match kind {
        FilterKind::IContains => "%"@ + value + "%"@,
        _ => value,
    }
}

/// The condition that a comparison puts on a column.
pub open spec fn bound_clause(column: Seq<char>, operator: Seq<char>, number: nat) -> Seq<char> {
    in_quotes(column) + operator + decimal(number)
}

/// One more condition.
pub open spec fn with_condition(
    conditions: Conditions,
    clause: Seq<char>,
    value: Seq<char>,
) -> Conditions {
    Conditions {
        clauses: conditions.clauses.push(clause),
        values: conditions.values.push(value),
    }
}

/// What is wrong with the parameters of a request.
#[derive(Debug)]
pub enum Problem {
    /// The request is refused.
    Refused(Refusal),
    /// The bracket of a range closes before it opens.
    UnclosedRange,
}

/// What a problem says.
pub enum ProblemView {
    Refused(Refused),
    UnclosedRange,
}

impl View for Problem {
    type V = ProblemView;

    open spec fn view(&self) -> ProblemView {
        match *self {
            Problem::Refused(refusal) => ProblemView::Refused(refusal@),
            Problem::UnclosedRange => ProblemView::UnclosedRange,
        }
    }
}

/// The request is refused with a message about it.
pub open spec fn problem(message: Seq<char>) -> ProblemView {
    ProblemView::Refused(bad_request(message))
}

/// The conditions with one part of a filter, of the form `value@column`.
pub open spec fn with_filter(
    conditions: Conditions,
    kind: FilterKind,
    part: Seq<char>,
    valid: Seq<Seq<char>>,
) -> Result<Conditions, ProblemView> {
    let at = find_last_char(part, '@');
    if at < 0 {
        Err(problem("Invalid "@ + kind.key() + " format. Expected val@col"@))
    } else {
        let column = part.skip(at + 1);
        if !valid.contains(column) {
            Err(problem("Invalid filter column: "@ + column))
        } else {
            Ok(
                with_condition(
                    conditions,
                    filter_clause(kind, column, conditions.clauses.len() + 1),
                    filter_value(kind, part.take(at)),
                ),
            )
        }
    }
}

/// The conditions with one part of a range, of the form `column[begin:end]`. A
/// part without both brackets is passed over, and an empty bound sets none.
pub open spec fn with_range(conditions: Conditions, part: Seq<char>, valid: Seq<Seq<char>>) -> Result<
    Conditions,
    ProblemView,
> {
    let start = find_char(part, '[');
    let end = find_char(part, ']');
    if start >= part.len() || end >= part.len() {
        Ok(conditions)
    } else if end < start {
        Err(ProblemView::UnclosedRange)
    } else {
        let column = part.take(start);
        let bounds = split(part.subrange(start + 1, end), ':');
        if !valid.contains(column) {
            Err(problem("Invalid range column: "@ + column))
        } else if bounds.len() != 2 {
            Err(
                problem(
                    "Invalid range format for "@ + column + ". Expected col[begin:end]"@,
                ),
            )
        } else {
            let lower = if bounds[0].len() == 0 {
                conditions
            } else {
                with_condition(
                    conditions,
                    bound_clause(column, " >= ?"@, conditions.clauses.len() + 1),
                    bounds[0],
                )
            };
            Ok(
                if bounds[1].len() == 0 {
                    lower
                } else {
                    with_condition(
                        lower,
                        bound_clause(column, " <= ?"@, lower.clauses.len() + 1),
                        bounds[1],
                    )
                },
            )
        }
    }
}

/// What a parameter says about rows.
pub enum RowParameter {
    Filter(FilterKind),
    Range,
    Other,
}

/// What a parameter of a key says about rows.
pub open spec fn row_parameter(key: Seq<char>) -> RowParameter {
    if key == FilterKind::Filter.key() {
        RowParameter::Filter(FilterKind::Filter)
    } else if key == FilterKind::IFilter.key() {
        RowParameter::Filter(FilterKind::IFilter)
    } else if key == FilterKind::Contains.key() {
        RowParameter::Filter(FilterKind::Contains)
    } else if key == FilterKind::IContains.key() {
        RowParameter::Filter(FilterKind::IContains)
    } else if key == "range"@ {
        RowParameter::Range
    } else {
        RowParameter::Other
    }
}

/// The conditions with some parts of a parameter.
pub open spec fn with_parts(
    conditions: Conditions,
    key: Seq<char>,
    parts: Seq<Seq<char>>,
    valid: Seq<Seq<char>>,
) -> Result<Conditions, ProblemView>
    decreases parts.len(),
{
    if parts.len() == 0 {
        Ok(conditions)
    } else {
        match with_parts(conditions, key, parts.drop_last(), valid) {
            Err(problem) => Err(problem),
            Ok(front) => match row_parameter(key) {
                RowParameter::Filter(kind) => with_filter(front, kind, parts.last(), valid),
                RowParameter::Range => with_range(front, parts.last(), valid),
                RowParameter::Other => Ok(front),
            },
        }
    }
}

/// The conditions that some parameters set.
pub open spec fn conditions_of(parameters: Seq<(Seq<char>, Seq<char>)>, valid: Seq<Seq<char>>) -> Result<
    Conditions,
    ProblemView,
>
    decreases parameters.len(),
{
    if parameters.len() == 0 {
        Ok(Conditions { clauses: seq![], values: seq![] })
    } else {
        match conditions_of(parameters.drop_last(), valid) {
            Err(problem) => Err(problem),
            Ok(front) => with_parts(
                front,
                parameters.last().0,
                split(parameters.last().1, ','),
                valid,
            ),
        }
    }
}

/// The conditions on rows so far, and the values of their placeholders.
#[derive(Debug)]
struct ConditionList {
    clauses: Vec<String>,
    values: Vec<String>,
}

impl ConditionList {
    spec fn conditions(&self) -> Conditions {
        Conditions { clauses: texts(self.clauses@), values: texts(self.values@) }
    }

    fn push(&mut self, clause: String, value: String)
        ensures
            final(self).conditions() == with_condition(old(self).conditions(), clause@, value@),
    {
        let ghost clauses_before = self.clauses@;
        let ghost values_before = self.values@;
        self.clauses.push(clause);
        self.values.push(value);
        assert(texts(self.clauses@) =~= texts(clauses_before).push(clause@));
        assert(texts(self.values@) =~= texts(values_before).push(value@));
    }

    /// The number of the next placeholder.
    fn next_number(&self) -> (number: u128)
        ensures
            number == self.conditions().clauses.len() + 1,
    {
        self.clauses.len() as u128 + 1
    }

    fn add_filter(&mut self, kind: FilterKind, part: &[char], valid: &Vec<String>) -> (added: Result<
        (),
        Problem,
    >)
        ensures
            ({
                let said = with_filter(old(self).conditions(), kind, part@, texts(valid@));
                match added {
                    Ok(()) => said == Ok::<Conditions, ProblemView>(final(self).conditions()),
                    Err(problem) => said == Err::<Conditions, ProblemView>(problem@),
                }
            }),
    {
        let at: usize = match last_index_of(part, '@') {
            Some(at) => at,
            None => {
                return Err(
                    Problem::Refused(
                        Refusal::about(
                            "Invalid ",
                            kind.key_text(),
                            " format. Expected val@col",
                            400,
                        ),
                    ),
                );
            },
        };
        let length: usize = part.len();
        let column_chars = vstd::slice::slice_subrange(part, at + 1, length);
        let value_chars = vstd::slice::slice_subrange(part, 0, at);
        assert(column_chars@ =~= part@.skip(at + 1));
        assert(value_chars@ =~= part@.take(at as int));
        let column = string_of(column_chars);
        let value = string_of(value_chars);
        if !contains_text(valid, column.as_str()) {
            return Err(Problem::Refused(Refusal::named("Invalid filter column: ", column.as_str(), 400)));
        }
        let number: u128 = self.next_number();
        let mut clause = String::new();
        if kind == FilterKind::Contains {
            clause.append("INSTR(");
            push_quoted(&mut clause, column.as_str());
            clause.append(", ?");
            push_decimal(&mut clause, number);
            clause.append(") > 0");
        } else {
            push_quoted(&mut clause, column.as_str());
            clause.append(" ");
            clause.append(kind.operator_text());
            clause.append(" ?");
            push_decimal(&mut clause, number);
        }
        assert(clause@ =~= filter_clause(kind, column@, number as nat));
        let mut bound = String::new();
        if kind == FilterKind::IContains {
            bound.append("%");
            bound.append(value.as_str());
            bound.append("%");
        } else {
            bound.append(value.as_str());
        }
        assert(bound@ =~= filter_value(kind, value@));
        self.push(clause, bound);
        Ok(())
    }

    fn add_bound(&mut self, column: &str, operator: &str, bound: &Vec<char>)
        ensures
            final(self).conditions() == if bound@.len() == 0 {
                old(self).conditions()
            } else {
                with_condition(
                    old(self).conditions(),
                    bound_clause(
                        column@,
                        operator@,
                        old(self).conditions().clauses.len() + 1,
                    ),
                    bound@,
                )
            },
    {
        if bound.len() == 0 {
            return;
        }
        let number: u128 = self.next_number();
        let mut clause = String::new();
        push_quoted(&mut clause, column);
        clause.append(operator);
        push_decimal(&mut clause, number);
        assert(clause@ =~= bound_clause(column@, operator@, number as nat));
        let value = string_of(bound.as_slice());
        self.push(clause, value);
    }

    fn add_range(&mut self, part: &[char], valid: &Vec<String>) -> (added: Result<(), Problem>)
        ensures
            ({
                let said = with_range(old(self).conditions(), part@, texts(valid@));
                match added {
                    Ok(()) => said == Ok::<Conditions, ProblemView>(final(self).conditions()),
                    Err(problem) => said == Err::<Conditions, ProblemView>(problem@),
                }
            }),
    {
        let start: usize = index_of(part, '[');
        let end: usize = index_of(part, ']');
        if start == part.len() || end == part.len() {
            return Ok(());
        }
        if end < start {
            return Err(Problem::UnclosedRange);
        }
        assert(start != end) by {
            lemma_find_char(part@, '[');
            lemma_find_char(part@, ']');
        }
        let column_chars = vstd::slice::slice_subrange(part, 0, start);
        let inner = vstd::slice::slice_subrange(part, start + 1, end);
        assert(column_chars@ =~= part@.take(start as int));
        assert(inner@ =~= part@.subrange(start + 1, end as int));
        let column = string_of(column_chars);
        let bounds = split_chars(inner, ':');
        assert(views(bounds@).len() == bounds@.len());
        if !contains_text(valid, column.as_str()) {
            return Err(Problem::Refused(Refusal::named("Invalid range column: ", column.as_str(), 400)));
        }
        if bounds.len() != 2 {
            return Err(
                Problem::Refused(
                    Refusal::about(
                        "Invalid range format for ",
                        column.as_str(),
                        ". Expected col[begin:end]",
                        400,
                    ),
                ),
            );
        }
        assert(views(bounds@)[0] == bounds@[0]@);
        assert(views(bounds@)[1] == bounds@[1]@);
        self.add_bound(column.as_str(), " >= ?", &bounds[0]);
        self.add_bound(column.as_str(), " <= ?", &bounds[1]);
        Ok(())
    }

    fn add_part(&mut self, key: &str, part: &[char], valid: &Vec<String>) -> (added: Result<
        (),
        Problem,
    >)
        ensures
            ({
                let before = old(self).conditions();
                let said = match row_parameter(key@) {
                    RowParameter::Filter(kind) => with_filter(before, kind, part@, texts(valid@)),
                    RowParameter::Range => with_range(before, part@, texts(valid@)),
                    RowParameter::Other => Ok(before),
                };
                match added {
                    Ok(()) => said == Ok::<Conditions, ProblemView>(final(self).conditions()),
                    Err(problem) => said == Err::<Conditions, ProblemView>(problem@),
                }
            }),
    {
        if same_text(key, "filter") {
            self.add_filter(FilterKind::Filter, part, valid)
        } else if same_text(key, "ifilter") {
            self.add_filter(FilterKind::IFilter, part, valid)
        } else if same_text(key, "contains") {
            self.add_filter(FilterKind::Contains, part, valid)
        } else if same_text(key, "icontains") {
            self.add_filter(FilterKind::IContains, part, valid)
        } else if same_text(key, "range") {
            self.add_range(part, valid)
        } else {
            Ok(())
        }
    }

    fn add_parameter(&mut self, parameter: &Parameter, valid: &Vec<String>) -> (added: Result<
        (),
        Problem,
    >)
        ensures
            ({
                let said = with_parts(
                    old(self).conditions(),
                    parameter.key@,
                    split(parameter.value@, ','),
                    texts(valid@),
                );
                match added {
                    Ok(()) => said == Ok::<Conditions, ProblemView>(final(self).conditions()),
                    Err(problem) => said == Err::<Conditions, ProblemView>(problem@),
                }
            }),
    {
        let ghost before = self.conditions();
        let ghost all = split(parameter.value@, ',');
        let parts = split_chars(chars_of(parameter.value.as_str()).as_slice(), ',');
        let mut i: usize = 0;
        while i < parts.len()
            invariant
                i <= parts@.len(),
                all == views(parts@),
                all == split(parameter.value@, ','),
                before == old(self).conditions(),
                with_parts(before, parameter.key@, all.take(i as int), texts(valid@)) == Ok::<
                    Conditions,
                    ProblemView,
                >(self.conditions()),
            decreases parts.len() - i,
        {
            proof {
                assert(all.take(i + 1).drop_last() =~= all.take(i as int));
                assert(all.take(i + 1).last() == all[i as int]);
                assert(all[i as int] == parts@[i as int]@);
            }
            match self.add_part(parameter.key.as_str(), parts[i].as_slice(), valid) {
                Ok(()) => {},
                Err(problem) => {
                    proof {
                        lemma_parts_refused(
                            before,
                            parameter.key@,
                            all,
                            texts(valid@),
                            i + 1,
                        );
                    }
                    return Err(problem);
                },
            }
            i += 1;
        }
        assert(all.take(all.len() as int) =~= all);
        Ok(())
    }
}

/// A part that is refused refuses the parameter.
proof fn lemma_parts_refused(
    conditions: Conditions,
    key: Seq<char>,
    parts: Seq<Seq<char>>,
    valid: Seq<Seq<char>>,
    some: int,
)
    requires
        0 <= some <= parts.len(),
        with_parts(conditions, key, parts.take(some), valid) is Err,
    ensures
        with_parts(conditions, key, parts, valid) == with_parts(
            conditions,
            key,
            parts.take(some),
            valid,
        ),
    decreases parts.len(),
{
    if some < parts.len() {
        assert(parts.drop_last().take(some) =~= parts.take(some));
        lemma_parts_refused(conditions, key, parts.drop_last(), valid, some);
    } else {
        assert(parts.take(some) =~= parts);
    }
}

/// A parameter that is refused refuses the request.
proof fn lemma_parameters_refused(
    parameters: Seq<(Seq<char>, Seq<char>)>,
    valid: Seq<Seq<char>>,
    some: int,
)
    requires
        0 <= some <= parameters.len(),
        conditions_of(parameters.take(some), valid) is Err,
    ensures
        conditions_of(parameters, valid) == conditions_of(parameters.take(some), valid),
    decreases parameters.len(),
{
    if some < parameters.len() {
        assert(parameters.drop_last().take(some) =~= parameters.take(some));
        lemma_parameters_refused(parameters.drop_last(), valid, some);
    } else {
        assert(parameters.take(some) =~= parameters);
    }
}

fn read_conditions(parameters: &Vec<Parameter>, valid: &Vec<String>) -> (read: Result<
    ConditionList,
    Problem,
>)
    ensures
        ({
            let said = conditions_of(pairs(parameters@), texts(valid@));
            match read {
                Ok(list) => said == Ok::<Conditions, ProblemView>(list.conditions()),
                Err(problem) => said == Err::<Conditions, ProblemView>(problem@),
            }
        }),
{
    let mut list = ConditionList { clauses: Vec::new(), values: Vec::new() };
    proof {
        assert(texts(list.clauses@) =~= seq![]);
        assert(texts(list.values@) =~= seq![]);
        assert(pairs(parameters@).take(0) =~= seq![]);
    }
    let mut i: usize = 0;
    while i < parameters.len()
        invariant
            i <= parameters@.len(),
            conditions_of(pairs(parameters@).take(i as int), texts(valid@)) == Ok::<Conditions, ProblemView>(
                list.conditions(),
            ),
        decreases parameters.len() - i,
    {
        proof {
            assert(pairs(parameters@).take(i + 1).drop_last() =~= pairs(parameters@).take(i as int));
            assert(pairs(parameters@).take(i + 1).last() == (
                parameters@[i as int].key@,
                parameters@[i as int].value@,
            ));
        }
        match list.add_parameter(&parameters[i], valid) {
            Ok(()) => {},
            Err(problem) => {
                proof {
                    lemma_parameters_refused(pairs(parameters@), texts(valid@), i + 1);
                }
                return Err(problem);
            },
        }
        i += 1;
    }
    assert(pairs(parameters@).take(pairs(parameters@).len() as int) =~= pairs(parameters@));
    Ok(list)
}

// ---------------------------------------------------------------------------
// Order
// ---------------------------------------------------------------------------
/// The order of a column: descending where a hyphen stands before it. A blank
/// part says nothing.
pub open spec fn with_order(order: Seq<Seq<char>>, part: Seq<char>, valid: Seq<Seq<char>>) -> Result<
    Seq<Seq<char>>,
    Refused,
> {
    let name = trim(part);
    if name.len() == 0 {
        Ok(order)
    } else {
        let descending = name[0] == '-';
        let column = if descending {
            name.drop_first()
        } else {
            name
        };
        if !valid.contains(column) {
            Err(bad_request("Invalid sort column: "@ + column))
        } else {
            Ok(
                order.push(
                    in_quotes(column) + if descending {
                        " DESC"@
                    } else {
                        " ASC"@
                    },
                ),
            )
        }
    }
}

/// The order that some parts give.
pub open spec fn order_of(parts: Seq<Seq<char>>, valid: Seq<Seq<char>>) -> Result<
    Seq<Seq<char>>,
    Refused,
>
    decreases parts.len(),
{
    if parts.len() == 0 {
        Ok(seq![])
    } else {
        match order_of(parts.drop_last(), valid) {
            Err(refused) => Err(refused),
            Ok(front) => with_order(front, parts.last(), valid),
        }
    }
}

/// The order that a request asks for.
pub open spec fn requested_order(parameters: Seq<(Seq<char>, Seq<char>)>, valid: Seq<Seq<char>>) -> Result<
    Seq<Seq<char>>,
    Refused,
> {
    match first_value(parameters, "sort"@) {
        Some(value) => order_of(split(value, ','), valid),
        None => Ok(seq![]),
    }
}

proof fn lemma_order_refused(parts: Seq<Seq<char>>, valid: Seq<Seq<char>>, some: int)
    requires
        0 <= some <= parts.len(),
        order_of(parts.take(some), valid) is Err,
    ensures
        order_of(parts, valid) == order_of(parts.take(some), valid),
    decreases parts.len(),
{
    if some < parts.len() {
        assert(parts.drop_last().take(some) =~= parts.take(some));
        lemma_order_refused(parts.drop_last(), valid, some);
    } else {
        assert(parts.take(some) =~= parts);
    }
}

fn read_order(parameters: &Vec<Parameter>, valid: &Vec<String>) -> (read: Result<
    Vec<String>,
    Refusal,
>)
    ensures
        ({
            let said = requested_order(pairs(parameters@), texts(valid@));
            match read {
                Ok(list) => said == Ok::<Seq<Seq<char>>, Refused>(texts(list@)),
                Err(refusal) => said == Err::<Seq<Seq<char>>, Refused>(refusal@),
            }
        }),
{
    let mut order: Vec<String> = Vec::new();
    assert(texts(order@) =~= seq![]);
    let value = match find_value(parameters, "sort") {
        Some(value) => value,
        None => return Ok(order),
    };
    let parts = split_chars(chars_of(value.as_str()).as_slice(), ',');
    let ghost all = views(parts@);
    let mut i: usize = 0;
    assert(all.take(0) =~= seq![]);
    while i < parts.len()
        invariant
            i <= parts@.len(),
            all == views(parts@),
            all == split(value@, ','),
            first_value(pairs(parameters@), "sort"@) == Some(value@),
            order_of(all.take(i as int), texts(valid@)) == Ok::<Seq<Seq<char>>, Refused>(
                texts(order@),
            ),
        decreases parts.len() - i,
    {
        proof {
            assert(all.take(i + 1).drop_last() =~= all.take(i as int));
            assert(all.take(i + 1).last() == parts@[i as int]@);
        }
        let name = trimmed(parts[i].as_slice());
        if name.len() > 0 {
            let descending = name[0] == '-';
            let column_chars = if descending {
                vstd::slice::slice_subrange(name, 1, name.len())
            } else {
                name
            };
            assert(descending ==> column_chars@ =~= name@.drop_first());
            let column = string_of(column_chars);
            if !contains_text(valid, column.as_str()) {
                proof {
                    lemma_order_refused(all, texts(valid@), i + 1);
                }
                return Err(Refusal::named("Invalid sort column: ", column.as_str(), 400));
            }
            let mut clause = String::new();
            push_quoted(&mut clause, column.as_str());
            if descending {
                clause.append(" DESC");
            } else {
                clause.append(" ASC");
            }
            assert(clause@ =~= in_quotes(column@) + if descending {
                " DESC"@
            } else {
                " ASC"@
            });
            let ghost before = order@;
            order.push(clause);
            assert(texts(order@) =~= texts(before).push(clause@));
        }
        i += 1;
    }
    assert(all.take(all.len() as int) =~= all);
    Ok(order)
}

// ---------------------------------------------------------------------------
// The whole query
// ---------------------------------------------------------------------------
/// A query for rows: the statement, the values of its first placeholders, and the
/// page, whose limit and offset are the last two.
#[derive(Debug)]
pub struct DataQuery {
    pub sql: String,
    pub values: Vec<String>,
    pub limit: u64,
    pub offset: u64,
}

/// What a query for rows is.
pub struct Data {
    pub sql: Seq<char>,
    pub values: Seq<Seq<char>>,
    pub limit: nat,
    pub offset: nat,
}

impl View for DataQuery {
    type V = Data;

    open spec fn view(&self) -> Data {
        Data {
            sql: self.sql@,
            values: texts(self.values@),
            limit: self.limit as nat,
            offset: self.offset as nat,
        }
    }
}

/// A clause with a word before its parts, where it has any.
pub open spec fn clause_of(word: Seq<char>, parts: Seq<Seq<char>>, sep: Seq<char>) -> Seq<char> {
    if parts.len() == 0 {
        ""@
    } else {
        word + join(parts, sep)
    }
}

/// The statement of a query for rows.
pub open spec fn data_sql(
    columns: Seq<char>,
    table: Seq<char>,
    conditions: Conditions,
    order: Seq<Seq<char>>,
) -> Seq<char> {
    "SELECT "@ + columns + " FROM "@ + table + " "@ + clause_of(
        "WHERE "@,
        conditions.clauses,
        " AND "@,
    ) + " "@ + clause_of("ORDER BY "@, order, ", "@) + " LIMIT ?"@ + decimal(
        conditions.clauses.len() + 1,
    ) + " OFFSET ?"@ + decimal(conditions.clauses.len() + 2)
}

/// The query for the rows of a table that a request asks for; or the first thing
/// that is wrong with the request: its columns, then its conditions, then its
/// order.
pub open spec fn data_query(
    parameters: Seq<(Seq<char>, Seq<char>)>,
    table: Seq<char>,
    valid: Seq<Seq<char>>,
) -> Result<Data, ProblemView> {
    match selection(parameters, valid) {
        Err(refused) => Err(ProblemView::Refused(refused)),
        Ok(columns) => match conditions_of(parameters, valid) {
            Err(problem) => Err(problem),
            Ok(conditions) => match requested_order(parameters, valid) {
                Err(refused) => Err(ProblemView::Refused(refused)),
                Ok(order) => Ok(
                    Data {
                        sql: data_sql(columns, table, conditions, order),
                        values: conditions.values,
                        limit: row_limit(parameters),
                        offset: count_value(parameters, "offset"@, 0),
                    },
                ),
            },
        },
    }
}

fn push_clause(sql: &mut String, word: &str, parts: &Vec<String>, sep: &str)
    ensures
        final(sql)@ == old(sql)@ + clause_of(word@, texts(parts@), sep@),
{
    let ghost before = sql@;
    assert(texts(parts@).len() == parts@.len());
    if parts.len() == 0 {
        sql.append("");
        return;
    }
    sql.append(word);
    sql.append(join_texts(parts, sep).as_str());
    assert(sql@ =~= before + clause_of(word@, texts(parts@), sep@));
}

fn plan_query(parameters: &Vec<Parameter>, table_name: &str, valid_columns: &Vec<String>) -> (query:
    Result<DataQuery, Problem>)
    ensures
        ({
            let said = data_query(pairs(parameters@), table_name@, texts(valid_columns@));
            match query {
                Ok(data) => said == Ok::<Data, ProblemView>(data@),
                Err(problem) => said == Err::<Data, ProblemView>(problem@),
            }
        }),
{
    let asked: u64 = read_count(parameters, "limit", DEFAULT_LIMIT);
    let limit: u64 = if asked < MAX_LIMIT {
        asked
    } else {
        MAX_LIMIT
    };
    let offset: u64 = read_count(parameters, "offset", 0);
    let columns = match select_columns(parameters, valid_columns) {
        Ok(columns) => columns,
        Err(refusal) => return Err(Problem::Refused(refusal)),
    };
    let conditions = match read_conditions(parameters, valid_columns) {
        Ok(conditions) => conditions,
        Err(problem) => return Err(problem),
    };
    let order = match read_order(parameters, valid_columns) {
        Ok(order) => order,
        Err(refusal) => return Err(Problem::Refused(refusal)),
    };
    let count: usize = conditions.clauses.len();
    let number: u128 = conditions.next_number();
    let mut sql = "SELECT ".to_owned();
    sql.append(columns.as_str());
    sql.append(" FROM ");
    sql.append(table_name);
    sql.append(" ");
    push_clause(&mut sql, "WHERE ", &conditions.clauses, " AND ");
    sql.append(" ");
    push_clause(&mut sql, "ORDER BY ", &order, ", ");
    sql.append(" LIMIT ?");
    push_decimal(&mut sql, number);
    sql.append(" OFFSET ?");
    push_decimal(&mut sql, count as u128 + 2);
    Ok(DataQuery { sql, values: conditions.values, limit, offset })
}

/// A request reaches a range whose bracket closes before it opens.
pub open spec fn reaches_unclosed_range(
    parameters: Seq<(Seq<char>, Seq<char>)>,
    valid: Seq<Seq<char>>,
) -> bool {
    selection(parameters, valid) is Ok && conditions_of(parameters, valid) == Err::<
        Conditions,
        ProblemView,
    >(ProblemView::UnclosedRange)
}

/// Whether a request reaches a range whose bracket closes before it opens.
pub fn has_unclosed_range(parameters: &Vec<Parameter>, valid_columns: &Vec<String>) -> (yes: bool)
    ensures
        yes == reaches_unclosed_range(pairs(parameters@), texts(valid_columns@)),
{
    match plan_query(parameters, "", valid_columns) {
        Err(Problem::UnclosedRange) => true,
        _ => false,
    }
}

/// The query for the rows of a table that a request asks for.
pub fn build_query(parameters: &Vec<Parameter>, table_name: &str, valid_columns: &Vec<String>) -> (query:
    Result<DataQuery, Refusal>)
    requires
        !reaches_unclosed_range(pairs(parameters@), texts(valid_columns@)),
    ensures
        ({
            let said = data_query(pairs(parameters@), table_name@, texts(valid_columns@));
            match query {
                Ok(data) => said == Ok::<Data, ProblemView>(data@),
                Err(refusal) => said == Err::<Data, ProblemView>(ProblemView::Refused(refusal@)),
            }
        }),
{
    match plan_query(parameters, table_name, valid_columns) {
        Ok(query) => Ok(query),
        Err(Problem::Refused(refusal)) => Err(refusal),
        Err(Problem::UnclosedRange) => {
            assert(false);
            Err(Refusal::new("", 500))
        },
    }
}

// ---------------------------------------------------------------------------
// Laws
// ---------------------------------------------------------------------------
/// A page has at most the maximum of rows, and exactly as many as are asked for
/// up to there.
pub proof fn law_pages_are_bounded(parameters: Seq<(Seq<char>, Seq<char>)>)
    ensures
        row_limit(parameters) <= MAX_LIMIT,
        count_value(parameters, "limit"@, DEFAULT_LIMIT as nat) <= MAX_LIMIT ==> row_limit(
            parameters,
        ) == count_value(parameters, "limit"@, DEFAULT_LIMIT as nat),
{
}

/// The condition is a filter or a bound of a column, with the placeholder of a
/// number.
pub open spec fn is_condition(clause: Seq<char>, column: Seq<char>, number: nat) -> bool {
    ||| exists|kind: FilterKind| clause == #[trigger] filter_clause(kind, column, number)
    ||| clause == bound_clause(column, " >= ?"@, number)
    ||| clause == bound_clause(column, " <= ?"@, number)
}

/// The condition is one of a valid column.
pub open spec fn is_valid_condition(
    clause: Seq<char>,
    valid: Seq<Seq<char>>,
    number: nat,
) -> bool {
    exists|i: int| 0 <= i < valid.len() && is_condition(clause, #[trigger] valid[i], number)
}

/// Each condition has one value, and the placeholder of its own number.
pub open spec fn is_numbered(conditions: Conditions, valid: Seq<Seq<char>>) -> bool {
    &&& conditions.clauses.len() == conditions.values.len()
    &&& forall|k: int|
        0 <= k < conditions.clauses.len() ==> is_valid_condition(
            #[trigger] conditions.clauses[k],
            valid,
            (k + 1) as nat,
        )
}

proof fn lemma_one_more_condition(
    conditions: Conditions,
    clause: Seq<char>,
    value: Seq<char>,
    column: Seq<char>,
    valid: Seq<Seq<char>>,
)
    requires
        is_numbered(conditions, valid),
        valid.contains(column),
        is_condition(clause, column, conditions.clauses.len() + 1),
    ensures
        is_numbered(with_condition(conditions, clause, value), valid),
{
    let i = choose|i: int| 0 <= i < valid.len() && valid[i] == column;
    assert(is_condition(clause, valid[i], conditions.clauses.len() + 1));
    let more = with_condition(conditions, clause, value);
    assert forall|k: int| 0 <= k < more.clauses.len() implies is_valid_condition(
        #[trigger] more.clauses[k],
        valid,
        (k + 1) as nat,
    ) by {
        if k < conditions.clauses.len() {
            assert(more.clauses[k] == conditions.clauses[k]);
        }
    }
}

proof fn lemma_filter_is_numbered(
    conditions: Conditions,
    kind: FilterKind,
    part: Seq<char>,
    valid: Seq<Seq<char>>,
)
    requires
        is_numbered(conditions, valid),
    ensures
        with_filter(conditions, kind, part, valid) matches Ok(more) ==> is_numbered(more, valid),
{
    let at = find_last_char(part, '@');
    let column = part.skip(at + 1);
    if at >= 0 && valid.contains(column) {
        let number = conditions.clauses.len() + 1;
        assert(is_condition(filter_clause(kind, column, number), column, number));
        lemma_one_more_condition(
            conditions,
            filter_clause(kind, column, number),
            filter_value(kind, part.take(at)),
            column,
            valid,
        );
    }
}

proof fn lemma_range_is_numbered(conditions: Conditions, part: Seq<char>, valid: Seq<Seq<char>>)
    requires
        is_numbered(conditions, valid),
    ensures
        with_range(conditions, part, valid) matches Ok(more) ==> is_numbered(more, valid),
{
    let start = find_char(part, '[');
    let end = find_char(part, ']');
    if start < part.len() && end < part.len() && start <= end {
        let column = part.take(start);
        let bounds = split(part.subrange(start + 1, end), ':');
        if valid.contains(column) && bounds.len() == 2 {
            let number = conditions.clauses.len() + 1;
            let clause = bound_clause(column, " >= ?"@, number);
            lemma_one_more_condition(conditions, clause, bounds[0], column, valid);
            let lower = if bounds[0].len() == 0 {
                conditions
            } else {
                with_condition(conditions, clause, bounds[0])
            };
            lemma_one_more_condition(
                lower,
                bound_clause(column, " <= ?"@, lower.clauses.len() + 1),
                bounds[1],
                column,
                valid,
            );
        }
    }
}

proof fn lemma_parts_are_numbered(
    conditions: Conditions,
    key: Seq<char>,
    parts: Seq<Seq<char>>,
    valid: Seq<Seq<char>>,
)
    requires
        is_numbered(conditions, valid),
    ensures
        with_parts(conditions, key, parts, valid) matches Ok(more) ==> is_numbered(more, valid),
    decreases parts.len(),
{
    if parts.len() > 0 {
        lemma_parts_are_numbered(conditions, key, parts.drop_last(), valid);
        if let Ok(front) = with_parts(conditions, key, parts.drop_last(), valid) {
            match row_parameter(key) {
                RowParameter::Filter(kind) => {
                    lemma_filter_is_numbered(front, kind, parts.last(), valid);
                },
                RowParameter::Range => {
                    lemma_range_is_numbered(front, parts.last(), valid);
                },
                RowParameter::Other => {},
            }
        }
    }
}

/// The conditions of a query name valid columns alone, each has one value, and
/// the placeholders are numbered in order from one.
pub proof fn law_conditions_are_numbered(parameters: Seq<(Seq<char>, Seq<char>)>, valid: Seq<Seq<char>>)
    ensures
        conditions_of(parameters, valid) matches Ok(conditions) ==> is_numbered(conditions, valid),
    decreases parameters.len(),
{
    if parameters.len() > 0 {
        law_conditions_are_numbered(parameters.drop_last(), valid);
        if let Ok(front) = conditions_of(parameters.drop_last(), valid) {
            lemma_parts_are_numbered(
                front,
                parameters.last().0,
                split(parameters.last().1, ','),
                valid,
            );
        }
    }
}

/// The order is that of a valid column.
pub open spec fn is_valid_order(clause: Seq<char>, valid: Seq<Seq<char>>) -> bool {
    exists|i: int|
        0 <= i < valid.len() && (clause == in_quotes(#[trigger] valid[i]) + " ASC"@ || clause
            == in_quotes(valid[i]) + " DESC"@)
}

proof fn lemma_order_is_valid(parts: Seq<Seq<char>>, valid: Seq<Seq<char>>)
    ensures
        order_of(parts, valid) matches Ok(order) ==> forall|k: int|
            0 <= k < order.len() ==> is_valid_order(#[trigger] order[k], valid),
    decreases parts.len(),
{
    if parts.len() > 0 {
        lemma_order_is_valid(parts.drop_last(), valid);
        if let (Ok(front), Ok(order)) = (order_of(parts.drop_last(), valid), order_of(parts, valid)) {
            let name = trim(parts.last());
            if name.len() > 0 {
                let column = if name[0] == '-' {
                    name.drop_first()
                } else {
                    name
                };
                let i = choose|i: int| 0 <= i < valid.len() && valid[i] == column;
                assert(in_quotes(valid[i]) == in_quotes(column));
                assert(is_valid_order(order.last(), valid));
                assert forall|k: int| 0 <= k < order.len() implies is_valid_order(
                    #[trigger] order[k],
                    valid,
                ) by {
                    if k < front.len() {
                        assert(order[k] == front[k]);
                    }
                }
            }
        }
    }
}

/// The order of a query names valid columns alone.
pub proof fn law_orders_name_valid_columns(parameters: Seq<(Seq<char>, Seq<char>)>, valid: Seq<Seq<char>>)
    ensures
        requested_order(parameters, valid) matches Ok(order) ==> forall|k: int|
            0 <= k < order.len() ==> is_valid_order(#[trigger] order[k], valid),
{
    if let Some(value) = first_value(parameters, "sort"@) {
        lemma_order_is_valid(split(value, ','), valid);
    }
}

/// The columns are valid.
pub open spec fn all_valid(columns: Seq<Seq<char>>, valid: Seq<Seq<char>>) -> bool {
    forall|k: int| 0 <= k < columns.len() ==> valid.contains(#[trigger] columns[k])
}

proof fn lemma_no_invalid(list: Seq<Seq<char>>, valid: Seq<Seq<char>>)
    requires
        first_invalid(list, valid) is None,
    ensures
        all_valid(list, valid),
    decreases list.len(),
{
    if list.len() > 0 {
        lemma_no_invalid(list.drop_first(), valid);
        assert forall|k: int| 0 <= k < list.len() implies valid.contains(#[trigger] list[k]) by {
            if k > 0 {
                assert(list[k] == list.drop_first()[k - 1]);
            }
        }
    }
}

proof fn lemma_left_is_valid(some: Seq<Seq<char>>, list: Seq<Seq<char>>, valid: Seq<Seq<char>>)
    requires
        all_valid(some, valid),
    ensures
        all_valid(not_excluded(some, list), valid),
    decreases some.len(),
{
    if some.len() > 0 {
        assert forall|k: int| 0 <= k < some.len() - 1 implies valid.contains(
            #[trigger] some.drop_last()[k],
        ) by {
            assert(some.drop_last()[k] == some[k]);
        }
        lemma_left_is_valid(some.drop_last(), list, valid);
        assert(valid.contains(some[some.len() - 1]));
    }
}

/// The columns that a query selects are all of them or a list of valid ones.
pub proof fn law_selections_name_valid_columns(parameters: Seq<(Seq<char>, Seq<char>)>, valid: Seq<Seq<char>>)
    ensures
        selection(parameters, valid) matches Ok(text) ==> text == "*"@ || exists|
            columns: Seq<Seq<char>>,
        | #[trigger]
            all_valid(columns, valid) && text == quoted_list(columns),
{
    if let Ok(text) = selection(parameters, valid) {
        if let Some(value) = first_value(parameters, "include"@) {
            let list = trimmed_pieces(split(value, ','));
            lemma_no_invalid(list, valid);
            assert(all_valid(list, valid) && text == quoted_list(list));
        } else if let Some(value) = first_value(parameters, "exclude"@) {
            let list = trimmed_pieces(split(value, ','));
            let left = not_excluded(valid, list);
            lemma_left_is_valid(valid, list, valid);
            assert(all_valid(left, valid) && text == quoted_list(left));
        }
    }
}

} // verus!
