//! What holds of every query for rows: what each parameter of a request adds to it.
use crate::api::database::Refused;
use crate::api::query::{
    conditions_of, count_value, data_query, first_invalid, first_value, not_excluded,
    order_of, quoted_list, requested_order, selection, with_order, with_parts,
    Conditions, Data, FilterKind, ProblemView,
};
use crate::number::{decimal, parse_unsigned};
use crate::number_laws::{law_numbers_are_read_as_they_are_written, spells};
use crate::pieces::{
    find_char, find_last_char, join, lemma_find_char, lemma_find_char_is, split, trim,
    trimmed_pieces,
};
use crate::pieces_laws::{
    is_blank, is_tight, law_blanks_around_do_not_matter, law_texts_are_cut_at_separators,
    law_the_last_place_of_a_character,
};
use vstd::prelude::*;
use vstd::string::*;

verus! {

/// The parameters of a request, each with its key and its value.
pub type Parameters = Seq<(Seq<char>, Seq<char>)>;

// ---------------------------------------------------------------------------
// Single values
// ---------------------------------------------------------------------------
/// The parameter at an index is the first of a key.
pub open spec fn is_first(parameters: Parameters, k: int, key: Seq<char>) -> bool {
    &&& 0 <= k < parameters.len()
    &&& parameters[k].0 == key
    &&& forall|j: int| 0 <= j < k ==> (#[trigger] parameters[j]).0 != key
}

/// No parameter has a key.
pub open spec fn has_none(parameters: Parameters, key: Seq<char>) -> bool {
    forall|j: int| 0 <= j < parameters.len() ==> (#[trigger] parameters[j]).0 != key
}

/// The first parameter of a key counts, and no later one.
pub proof fn law_the_first_parameter_counts(parameters: Parameters, key: Seq<char>)
    ensures
        forall|k: int| #[trigger]
            is_first(parameters, k, key) ==> first_value(parameters, key) == Some(
                parameters[k].1,
            ),
        has_none(parameters, key) <==> first_value(parameters, key) is None,
    decreases parameters.len(),
{
    if parameters.len() > 0 {
        let rest = parameters.drop_first();
        law_the_first_parameter_counts(rest, key);
        assert forall|k: int| #[trigger] is_first(parameters, k, key) implies first_value(
            parameters,
            key,
        ) == Some(parameters[k].1) by {
            if k > 0 {
                assert(parameters[0].0 != key);
                assert(rest[k - 1] == parameters[k]);
                assert forall|j: int| 0 <= j < k - 1 implies (#[trigger] rest[j]).0 != key by {
                    assert(rest[j] == parameters[j + 1]);
                }
                assert(is_first(rest, k - 1, key));
            }
        }
        if has_none(parameters, key) {
            assert forall|j: int| 0 <= j < rest.len() implies (#[trigger] rest[j]).0 != key by {
                assert(rest[j] == parameters[j + 1]);
            }
            assert(parameters[0].0 != key);
        }
        if first_value(parameters, key) is None {
            assert forall|j: int| 0 <= j < parameters.len() implies (#[trigger] parameters[j]).0
                != key by {
                if j > 0 {
                    assert(rest[j - 1] == parameters[j]);
                }
            }
        }
    }
}

/// The text is a number of 32 bits.
pub open spec fn says(text: Seq<char>, n: nat) -> bool {
    n <= u32::MAX && exists|sign: Seq<char>, zeros: nat| #[trigger] spells(text, n, sign, zeros)
}

/// The number that the first parameter of a key says; no parameter, or one that says
/// none, leaves another.
pub open spec fn is_asked_number(
    parameters: Parameters,
    key: Seq<char>,
    otherwise: nat,
    n: nat,
) -> bool {
    &&& has_none(parameters, key) ==> n == otherwise
    &&& forall|k: int, m: nat|
        #![trigger is_first(parameters, k, key), says(parameters[k].1, m)]
        is_first(parameters, k, key) && says(parameters[k].1, m) ==> n == m
    &&& forall|k: int| #[trigger]
        is_first(parameters, k, key) && (forall|m: nat| !#[trigger] says(parameters[k].1, m)) ==> n
            == otherwise
}

proof fn lemma_asked_number(parameters: Parameters, key: Seq<char>, otherwise: nat)
    ensures
        is_asked_number(parameters, key, otherwise, count_value(parameters, key, otherwise)),
{
    law_the_first_parameter_counts(parameters, key);
    let n = count_value(parameters, key, otherwise);
    assert forall|k: int, m: nat|
        #![trigger is_first(parameters, k, key), says(parameters[k].1, m)]
        is_first(parameters, k, key) && says(parameters[k].1, m) implies n == m by {
        law_numbers_are_read_as_they_are_written(parameters[k].1, u32::MAX as nat, m);
    }
    assert forall|k: int| #[trigger]
        is_first(parameters, k, key) && (forall|m: nat| !#[trigger] says(
            parameters[k].1,
            m,
        )) implies n == otherwise by {
        if let Some(m) = parse_unsigned(parameters[k].1, u32::MAX as nat) {
            law_numbers_are_read_as_they_are_written(parameters[k].1, u32::MAX as nat, m);
            assert(says(parameters[k].1, m));
        }
    }
}

/// Every row can be reached page by page: a query skips exactly as many rows as the first
/// `offset` says, however many that are, and none where it says no number; and it gives
/// as many as the first `limit` says, up to a thousand, and a hundred where it says no
/// number.
pub proof fn law_pages_are_those_asked_for(
    parameters: Parameters,
    table: Seq<char>,
    valid: Seq<Seq<char>>,
) -> (asked: nat)
    ensures
        is_asked_number(parameters, "limit"@, 100, asked),
        data_query(parameters, table, valid) matches Ok(data) ==> is_asked_number(
            parameters,
            "offset"@,
            0,
            data.offset,
        ) && data.limit <= 1000 && (asked <= 1000 ==> data.limit == asked) && (asked > 1000
            ==> data.limit == 1000),
{
    lemma_asked_number(parameters, "offset"@, 0);
    lemma_asked_number(parameters, "limit"@, 100);
    count_value(parameters, "limit"@, 100)
}

// ---------------------------------------------------------------------------
// Conditions on rows
// ---------------------------------------------------------------------------
/// How a condition compares a column with a value.
pub enum Test {
    /// The column is the value.
    Same,
    /// The column is the value, whatever the case of its letters.
    SameButCase,
    /// The value stands in the column.
    Holds,
    /// The value stands in the column, whatever the case of its letters.
    HoldsButCase,
    /// The column is not less than the value.
    AtLeast,
    /// The column is not more than the value.
    AtMost,
}

/// The condition as SQL writes it, with the placeholder of a number.
pub open spec fn test_text(test: Test, column: Seq<char>, number: nat) -> Seq<char> {
    let name = seq!['"'] + column + seq!['"'];
    let place = seq!['?'] + decimal(number);
    match test {
        Test::Same => name + " = "@ + place,
        Test::SameButCase => name + " COLLATE NOCASE = "@ + place,
        Test::Holds => "INSTR("@ + name + ", "@ + place + ") > 0"@,
        Test::HoldsButCase => name + " LIKE "@ + place,
        Test::AtLeast => name + " >= "@ + place,
        Test::AtMost => name + " <= "@ + place,
    }
}

/// The value that the placeholder of a condition gets: with wildcards around it where
/// the condition looks inside the column by `LIKE`.
pub open spec fn test_value(test: Test, value: Seq<char>) -> Seq<char> {
    match test {
        Test::HoldsButCase => seq!['%'] + value + seq!['%'],
        _ => value,
    }
}

/// The conditions with one more at their end, whose placeholder has the next number.
pub open spec fn with_test(
    conditions: Conditions,
    test: Test,
    column: Seq<char>,
    value: Seq<char>,
) -> Conditions {
    Conditions {
        clauses: conditions.clauses.push(
            test_text(test, column, conditions.clauses.len() + 1),
        ),
        values: conditions.values.push(test_value(test, value)),
    }
}

/// The filter that a key names.
pub open spec fn filter_test(key: Seq<char>) -> Option<Test> {
    if key == "filter"@ {
        Some(Test::Same)
    } else if key == "ifilter"@ {
        Some(Test::SameButCase)
    } else if key == "contains"@ {
        Some(Test::Holds)
    } else if key == "icontains"@ {
        Some(Test::HoldsButCase)
    } else {
        None
    }
}

/// The filter of a key, in the terms of the query.
spec fn kind_of(key: Seq<char>) -> FilterKind {
    if key == "filter"@ {
        FilterKind::Filter
    } else if key == "ifilter"@ {
        FilterKind::IFilter
    } else if key == "contains"@ {
        FilterKind::Contains
    } else {
        FilterKind::IContains
    }
}

proof fn lemma_one_part(parameters: Parameters, key: Seq<char>, part: Seq<char>, valid: Seq<Seq<char>>)
    requires
        !part.contains(','),
    ensures
        conditions_of(parameters, valid) is Err ==> conditions_of(
            parameters.push((key, part)),
            valid,
        ) == conditions_of(parameters, valid),
        conditions_of(parameters, valid) matches Ok(front) ==> conditions_of(
            parameters.push((key, part)),
            valid,
        ) == with_parts(front, key, seq![part], valid),
{
    assert(parameters.push((key, part)).drop_last() =~= parameters);
    law_texts_are_cut_at_separators(part, Seq::empty(), ',');
}

proof fn lemma_parts_one_by_one(
    conditions: Conditions,
    key: Seq<char>,
    some: Seq<Seq<char>>,
    more: Seq<Seq<char>>,
    valid: Seq<Seq<char>>,
)
    ensures
        with_parts(conditions, key, some + more, valid) == match with_parts(
            conditions,
            key,
            some,
            valid,
        ) {
            Err(problem) => Err(problem),
            Ok(front) => with_parts(front, key, more, valid),
        },
    decreases more.len(),
{
    let all = some + more;
    if more.len() == 0 {
        assert(all =~= some);
    } else {
        assert(all.drop_last() =~= some + more.drop_last());
        lemma_parts_one_by_one(conditions, key, some, more.drop_last(), valid);
    }
}

/// A list is the same as its items one by one: a parameter with a comma in its value is
/// two parameters of its key.
pub proof fn law_lists_of_conditions_are_taken_one_by_one(
    parameters: Parameters,
    key: Seq<char>,
    a: Seq<char>,
    b: Seq<char>,
    valid: Seq<Seq<char>>,
)
    ensures
        conditions_of(parameters.push((key, a + seq![','] + b)), valid) == conditions_of(
            parameters.push((key, a)).push((key, b)),
            valid,
        ),
        conditions_of(Seq::empty(), valid) matches Ok(none) && none.clauses.len() == 0
            && none.values.len() == 0,
{
    let both = a + seq![','] + b;
    let first = parameters.push((key, a));
    assert(parameters.push((key, both)).drop_last() =~= parameters);
    assert(first.drop_last() =~= parameters);
    assert(first.push((key, b)).drop_last() =~= first);
    law_texts_are_cut_at_separators(a, b, ',');
    let taken_first = conditions_of(first, valid);
    assert(taken_first == match conditions_of(parameters, valid) {
        Err(problem) => Err(problem),
        Ok(front) => with_parts(front, key, split(a, ','), valid),
    });
    if let Ok(front) = conditions_of(parameters, valid) {
        lemma_parts_one_by_one(front, key, split(a, ','), split(b, ','), valid);
    }
}

/// A parameter of another key puts no condition on rows.
pub proof fn law_other_parameters_set_no_condition(
    parameters: Parameters,
    key: Seq<char>,
    value: Seq<char>,
    valid: Seq<Seq<char>>,
)
    requires
        filter_test(key) is None,
        key != "range"@,
    ensures
        conditions_of(parameters.push((key, value)), valid) == conditions_of(parameters, valid),
{
    assert(parameters.push((key, value)).drop_last() =~= parameters);
    if let Ok(front) = conditions_of(parameters, valid) {
        lemma_no_condition(front, key, split(value, ','), valid);
    }
}

proof fn lemma_no_condition(
    conditions: Conditions,
    key: Seq<char>,
    parts: Seq<Seq<char>>,
    valid: Seq<Seq<char>>,
)
    requires
        filter_test(key) is None,
        key != "range"@,
    ensures
        with_parts(conditions, key, parts, valid) == Ok::<Conditions, ProblemView>(conditions),
    decreases parts.len(),
{
    if parts.len() > 0 {
        lemma_no_condition(conditions, key, parts.drop_last(), valid);
    }
}

proof fn lemma_filter_texts(column: Seq<char>, value: Seq<char>, number: nat)
    ensures
        crate::api::query::filter_clause(FilterKind::Filter, column, number) == test_text(
            Test::Same,
            column,
            number,
        ),
        crate::api::query::filter_clause(FilterKind::IFilter, column, number) == test_text(
            Test::SameButCase,
            column,
            number,
        ),
        crate::api::query::filter_clause(FilterKind::Contains, column, number) == test_text(
            Test::Holds,
            column,
            number,
        ),
        crate::api::query::filter_clause(FilterKind::IContains, column, number) == test_text(
            Test::HoldsButCase,
            column,
            number,
        ),
        crate::api::query::bound_clause(column, " >= ?"@, number) == test_text(
            Test::AtLeast,
            column,
            number,
        ),
        crate::api::query::bound_clause(column, " <= ?"@, number) == test_text(
            Test::AtMost,
            column,
            number,
        ),
        crate::api::query::filter_value(FilterKind::IContains, value) == test_value(
            Test::HoldsButCase,
            value,
        ),
{
    reveal_strlit("\"");
    reveal_strlit("%");
    reveal_strlit(" ");
    reveal_strlit("=");
    reveal_strlit(" = ");
    reveal_strlit("COLLATE NOCASE =");
    reveal_strlit(" COLLATE NOCASE = ");
    reveal_strlit("LIKE");
    reveal_strlit(" LIKE ");
    reveal_strlit(" ?");
    reveal_strlit(", ?");
    reveal_strlit(", ");
    reveal_strlit(" >= ?");
    reveal_strlit(" >= ");
    reveal_strlit(" <= ?");
    reveal_strlit(" <= ");
    assert("\""@ =~= seq!['"']);
    assert("%"@ =~= seq!['%']);
    let name = seq!['"'] + column + seq!['"'];
    let digits = decimal(number);
    assert(crate::api::query::filter_clause(FilterKind::Filter, column, number) =~= test_text(
        Test::Same,
        column,
        number,
    ));
    assert(crate::api::query::filter_clause(FilterKind::IFilter, column, number) =~= test_text(
        Test::SameButCase,
        column,
        number,
    ));
    assert(crate::api::query::filter_clause(FilterKind::Contains, column, number) =~= test_text(
        Test::Holds,
        column,
        number,
    ));
    assert(crate::api::query::filter_clause(FilterKind::IContains, column, number) =~= test_text(
        Test::HoldsButCase,
        column,
        number,
    ));
    assert(crate::api::query::bound_clause(column, " >= ?"@, number) =~= test_text(
        Test::AtLeast,
        column,
        number,
    ));
    assert(crate::api::query::bound_clause(column, " <= ?"@, number) =~= test_text(
        Test::AtMost,
        column,
        number,
    ));
}

proof fn lemma_keys_differ()
    ensures
        "filter"@ != "ifilter"@,
        "filter"@ != "contains"@,
        "filter"@ != "icontains"@,
        "filter"@ != "range"@,
        "ifilter"@ != "contains"@,
        "ifilter"@ != "icontains"@,
        "ifilter"@ != "range"@,
        "contains"@ != "icontains"@,
        "contains"@ != "range"@,
        "icontains"@ != "range"@,
{
    reveal_strlit("filter");
    reveal_strlit("ifilter");
    reveal_strlit("contains");
    reveal_strlit("icontains");
    reveal_strlit("range");
    assert("filter"@.len() == 6 && "ifilter"@.len() == 7 && "contains"@.len() == 8
        && "icontains"@.len() == 9 && "range"@.len() == 5);
}

/// A filter of the form `value@column` adds the condition that its key names, on that
/// column and with that value, behind those that are there; the value may hold an `@`
/// itself. A column that is not valid, and a filter without an `@`, are refused.
pub proof fn law_filters_add_their_condition(
    parameters: Parameters,
    key: Seq<char>,
    value: Seq<char>,
    column: Seq<char>,
    valid: Seq<Seq<char>>,
)
    requires
        filter_test(key) is Some,
        conditions_of(parameters, valid) is Ok,
        !value.contains(','),
        !column.contains(','),
        !column.contains('@'),
    ensures
        ({
            let front = conditions_of(parameters, valid)->Ok_0;
            let filtered = conditions_of(
                parameters.push((key, value + seq!['@'] + column)),
                valid,
            );
            &&& valid.contains(column) ==> filtered == Ok::<Conditions, ProblemView>(
                with_test(front, filter_test(key)->Some_0, column, value),
            )
            &&& !valid.contains(column) ==> filtered == Err::<Conditions, ProblemView>(
                ProblemView::Refused(
                    Refused { message: "Invalid filter column: "@ + column, status: 400 },
                ),
            )
            &&& conditions_of(parameters.push((key, column)), valid) == Err::<
                Conditions,
                ProblemView,
            >(
                ProblemView::Refused(
                    Refused {
                        message: "Invalid "@ + key + " format. Expected val@col"@,
                        status: 400,
                    },
                ),
            )
        }),
{
    let front = conditions_of(parameters, valid)->Ok_0;
    let part = value + seq!['@'] + column;
    let at = value.len() as int;
    let kind = kind_of(key);
    lemma_keys_differ();
    assert(kind.key() == key);
    assert(!part.contains(',')) by {
        if part.contains(',') {
            let i = choose|i: int| 0 <= i < part.len() && part[i] == ',';
            if i < at {
                assert(value[i] == ',');
            } else if i > at {
                assert(column[i - at - 1] == ',');
            }
        }
    }
    lemma_one_part(parameters, key, part, valid);
    lemma_one_part(parameters, key, column, valid);
    law_the_last_place_of_a_character(part, '@');
    let found = find_last_char(part, '@');
    assert(part[at] == '@');
    assert(found == at) by {
        if found > at {
            assert(column[found - at - 1] == '@');
        }
    }
    assert(part.skip(at + 1) =~= column);
    assert(part.take(at) =~= value);
    law_the_last_place_of_a_character(column, '@');
    if find_last_char(column, '@') >= 0 {
        assert(column[find_last_char(column, '@')] == '@');
    }
    lemma_filter_texts(column, value, front.clauses.len() + 1);
    assert(seq![part].drop_last() =~= Seq::<Seq<char>>::empty());
    assert(seq![column].drop_last() =~= Seq::<Seq<char>>::empty());
    assert(with_parts(front, key, Seq::<Seq<char>>::empty(), valid) == Ok::<
        Conditions,
        ProblemView,
    >(front));
}

/// A range of the form `column[begin:end]` adds that the column is not less than the
/// begin and that it is not more than the end, behind the conditions that are there; an
/// end that is left empty adds nothing. A column that is not valid, and a range with no
/// or with several colons, are refused.
pub proof fn law_ranges_add_their_bounds(
    parameters: Parameters,
    column: Seq<char>,
    begin: Seq<char>,
    end: Seq<char>,
    valid: Seq<Seq<char>>,
)
    requires
        conditions_of(parameters, valid) is Ok,
        is_plain_part(column),
        is_plain_part(begin),
        is_plain_part(end),
        !begin.contains(':'),
        !end.contains(':'),
    ensures
        ({
            let front = conditions_of(parameters, valid)->Ok_0;
            let lower = if begin.len() == 0 {
                front
            } else {
                with_test(front, Test::AtLeast, column, begin)
            };
            let both = if end.len() == 0 {
                lower
            } else {
                with_test(lower, Test::AtMost, column, end)
            };
            let part = column + seq!['['] + begin + seq![':'] + end + seq![']'];
            let odd = column + seq!['['] + begin + seq![']'];
            let ranged = conditions_of(parameters.push(("range"@, part)), valid);
            &&& valid.contains(column) ==> ranged == Ok::<Conditions, ProblemView>(both)
            &&& !valid.contains(column) ==> ranged == Err::<Conditions, ProblemView>(
                ProblemView::Refused(
                    Refused { message: "Invalid range column: "@ + column, status: 400 },
                ),
            )
            &&& valid.contains(column) ==> conditions_of(
                parameters.push(("range"@, odd)),
                valid,
            ) == Err::<Conditions, ProblemView>(
                ProblemView::Refused(
                    Refused {
                        message: "Invalid range format for "@ + column
                            + ". Expected col[begin:end]"@,
                        status: 400,
                    },
                ),
            )
            &&& conditions_of(parameters.push(("range"@, column)), valid) == conditions_of(
                parameters,
                valid,
            )
        }),
{
    let front = conditions_of(parameters, valid)->Ok_0;
    let inner = begin + seq![':'] + end;
    let part = column + seq!['['] + begin + seq![':'] + end + seq![']'];
    let odd = column + seq!['['] + begin + seq![']'];
    lemma_keys_differ();
    lemma_range_part(front, column, inner, valid);
    lemma_range_part(front, column, begin, valid);
    assert(part =~= column + seq!['['] + inner + seq![']']);
    lemma_plain_inside(column, inner);
    lemma_plain_inside(column, begin);
    lemma_one_part(parameters, "range"@, part, valid);
    lemma_one_part(parameters, "range"@, odd, valid);
    lemma_one_part(parameters, "range"@, column, valid);
    law_texts_are_cut_at_separators(begin, end, ':');
    law_texts_are_cut_at_separators(end, Seq::empty(), ':');
    assert(split(inner, ':') =~= seq![begin, end]);
    assert(split(begin, ':') =~= seq![begin]);
    lemma_filter_texts(column, begin, front.clauses.len() + 1);
    lemma_filter_texts(column, begin, front.clauses.len() + 2);
    lemma_find_char(column, '[');
    lemma_find_char(column, ']');
    let none = Seq::<Seq<char>>::empty();
    assert(seq![part].drop_last() =~= none);
    assert(seq![odd].drop_last() =~= none);
    assert(seq![column].drop_last() =~= none);
    assert(with_parts(front, "range"@, none, valid) == Ok::<Conditions, ProblemView>(front));
}

/// A text that holds no comma and no bracket.
pub open spec fn is_plain_part(s: Seq<char>) -> bool {
    !s.contains(',') && !s.contains('[') && !s.contains(']')
}

proof fn lemma_plain_inside(column: Seq<char>, inner: Seq<char>)
    requires
        !column.contains(','),
        !inner.contains(','),
    ensures
        !(column + seq!['['] + inner + seq![']']).contains(','),
{
    let part = column + seq!['['] + inner + seq![']'];
    if part.contains(',') {
        let i = choose|i: int| 0 <= i < part.len() && part[i] == ',';
        if i < column.len() {
            assert(column[i] == ',');
        } else if column.len() < i < part.len() - 1 {
            assert(inner[i - column.len() - 1] == ',');
        }
    }
}

proof fn lemma_range_part(
    front: Conditions,
    column: Seq<char>,
    inner: Seq<char>,
    valid: Seq<Seq<char>>,
)
    requires
        !column.contains('['),
        !column.contains(']'),
        !inner.contains(']'),
    ensures
        ({
            let part = column + seq!['['] + inner + seq![']'];
            let start = find_char(part, '[');
            let end = find_char(part, ']');
            &&& start == column.len()
            &&& end == part.len() - 1
            &&& start < end
            &&& part.take(start) == column
            &&& part.subrange(start + 1, end) == inner
        }),
{
    let part = column + seq!['['] + inner + seq![']'];
    let start = column.len() as int;
    let end = part.len() - 1;
    assert forall|j: int| 0 <= j < start implies part[j] != '[' by {
        assert(part[j] == column[j]);
    }
    lemma_find_char_is(part, '[', start);
    assert forall|j: int| 0 <= j < end implies part[j] != ']' by {
        if j < start {
            assert(part[j] == column[j]);
        } else if j > start {
            assert(part[j] == inner[j - start - 1]);
        }
    }
    lemma_find_char_is(part, ']', end);
    assert(part.take(start) =~= column);
    assert(part.subrange(start + 1, end) =~= inner);
}

// ---------------------------------------------------------------------------
// Order
// ---------------------------------------------------------------------------
/// The order by a column as SQL writes it.
pub open spec fn order_text(column: Seq<char>, descending: bool) -> Seq<char> {
    seq!['"'] + column + seq!['"'] + if descending {
        " DESC"@
    } else {
        " ASC"@
    }
}

proof fn lemma_orders_one_by_one(
    some: Seq<Seq<char>>,
    more: Seq<Seq<char>>,
    valid: Seq<Seq<char>>,
)
    ensures
        order_of(some, valid) is Err ==> order_of(some + more, valid) == order_of(some, valid),
        order_of(some, valid) matches Ok(front) ==> (order_of(more, valid) matches Ok(back)
            ==> order_of(some + more, valid) == Ok::<Seq<Seq<char>>, Refused>(front + back)),
        order_of(some, valid) is Ok ==> (order_of(more, valid) matches Err(refused) ==> order_of(
            some + more,
            valid,
        ) == Err::<Seq<Seq<char>>, Refused>(refused)),
    decreases more.len(),
{
    let all = some + more;
    if more.len() == 0 {
        assert(all =~= some);
        if let Ok(front) = order_of(some, valid) {
            assert(front + Seq::<Seq<char>>::empty() =~= front);
        }
    } else {
        assert(all.drop_last() =~= some + more.drop_last());
        lemma_orders_one_by_one(some, more.drop_last(), valid);
        if order_of(some, valid) is Ok && order_of(more.drop_last(), valid) is Ok {
            let front = order_of(some, valid)->Ok_0;
            let back = order_of(more.drop_last(), valid)->Ok_0;
            if let Ok(longer) = with_order(back, more.last(), valid) {
                if longer.len() > back.len() {
                    assert((front + back).push(longer.last()) =~= front + longer);
                }
            }
        }
    }
}

/// The order of a request is that of the items of its first `sort`, one after the other:
/// that of a list is that of its first items and then that of the others, and the first
/// item that is refused is what is refused. No `sort` asks for no order.
pub proof fn law_orders_are_taken_one_by_one(
    parameters: Parameters,
    k: int,
    a: Seq<char>,
    b: Seq<char>,
    valid: Seq<Seq<char>>,
)
    requires
        is_first(parameters, k, "sort"@),
        parameters[k].1 == a + seq![','] + b,
    ensures
        ({
            let first = requested_order(seq![("sort"@, a)], valid);
            let second = requested_order(seq![("sort"@, b)], valid);
            let all = requested_order(parameters, valid);
            &&& first matches Err(refused) ==> all == Err::<Seq<Seq<char>>, Refused>(refused)
            &&& first matches Ok(front) ==> (second matches Ok(back) ==> all == Ok::<
                Seq<Seq<char>>,
                Refused,
            >(front + back))
            &&& first is Ok ==> (second matches Err(refused) ==> all == Err::<
                Seq<Seq<char>>,
                Refused,
            >(refused))
        }),
{
    let one = seq![("sort"@, a)];
    let other = seq![("sort"@, b)];
    law_the_first_parameter_counts(parameters, "sort"@);
    law_the_first_parameter_counts(one, "sort"@);
    law_the_first_parameter_counts(other, "sort"@);
    assert(is_first(one, 0, "sort"@));
    assert(is_first(other, 0, "sort"@));
    law_texts_are_cut_at_separators(a, b, ',');
    lemma_orders_one_by_one(split(a, ','), split(b, ','), valid);
}

/// One item of a `sort`, with any blanks around it, orders by its column: descending
/// where a hyphen stands before it, and else ascending. A blank item says nothing, and a
/// column that is not valid is refused.
pub proof fn law_an_item_orders_by_its_column(
    parameters: Parameters,
    k: int,
    before: Seq<char>,
    column: Seq<char>,
    behind: Seq<char>,
    valid: Seq<Seq<char>>,
)
    requires
        is_first(parameters, k, "sort"@),
        is_blank(before),
        is_blank(behind),
        is_tight(column),
        !column.contains(','),
        column.len() > 0 ==> column[0] != '-',
    ensures
        ({
            let order = requested_order(parameters, valid);
            let refused = Err::<Seq<Seq<char>>, Refused>(
                Refused { message: "Invalid sort column: "@ + column, status: 400 },
            );
            &&& parameters[k].1 == before + column + behind && column.len() > 0 ==> order
                == if valid.contains(column) {
                Ok::<Seq<Seq<char>>, Refused>(seq![order_text(column, false)])
            } else {
                refused
            }
            &&& parameters[k].1 == before + (seq!['-'] + column) + behind ==> order
                == if valid.contains(column) {
                Ok::<Seq<Seq<char>>, Refused>(seq![order_text(column, true)])
            } else {
                refused
            }
            &&& parameters[k].1 == before ==> order == Ok::<Seq<Seq<char>>, Refused>(seq![])
        }),
{
    reveal_strlit("\"");
    assert("\""@ =~= seq!['"']);
    law_the_first_parameter_counts(parameters, "sort"@);
    let value = parameters[k].1;
    let none = Seq::<char>::empty();
    lemma_blanks_have_no_comma(before);
    lemma_blanks_have_no_comma(behind);
    let named = seq!['-'] + column;
    assert(named.drop_first() =~= column);
    law_blanks_around_do_not_matter(before, column, behind);
    assert(named.last() == if column.len() > 0 {
        column.last()
    } else {
        '-'
    });
    law_blanks_around_do_not_matter(before, named, behind);
    assert(before =~= before + none + none);
    law_blanks_around_do_not_matter(before, none, none);
    let plain = before + column + behind;
    let hyphened = before + named + behind;
    lemma_no_comma(before, column, behind);
    assert(!named.contains(',')) by {
        if named.contains(',') {
            let i = choose|i: int| 0 <= i < named.len() && named[i] == ',';
            assert(column[i - 1] == ',');
        }
    }
    lemma_no_comma(before, named, behind);
    law_texts_are_cut_at_separators(value, none, ',');
    if value == plain || value == hyphened || value == before {
        let parts = seq![value];
        assert(split(value, ',') == parts);
        assert(parts.drop_last() =~= Seq::<Seq<char>>::empty());
        assert(order_of(parts.drop_last(), valid) == Ok::<Seq<Seq<char>>, Refused>(seq![]));
        assert(order_of(parts, valid) == with_order(seq![], value, valid));
        assert(Seq::<Seq<char>>::empty().push(order_text(column, false)) =~= seq![
            order_text(column, false),
        ]);
        assert(Seq::<Seq<char>>::empty().push(order_text(column, true)) =~= seq![
            order_text(column, true),
        ]);
    }
}

proof fn lemma_blanks_have_no_comma(blanks: Seq<char>)
    requires
        is_blank(blanks),
    ensures
        !blanks.contains(','),
{
    if blanks.contains(',') {
        let i = choose|i: int| 0 <= i < blanks.len() && blanks[i] == ',';
        assert(crate::text::is_whitespace(blanks[i]));
    }
}

proof fn lemma_no_comma(before: Seq<char>, middle: Seq<char>, behind: Seq<char>)
    requires
        !before.contains(','),
        !middle.contains(','),
        !behind.contains(','),
    ensures
        !(before + middle + behind).contains(','),
{
    let all = before + middle + behind;
    if all.contains(',') {
        let i = choose|i: int| 0 <= i < all.len() && all[i] == ',';
        if i < before.len() {
            assert(before[i] == ',');
        } else if i < before.len() + middle.len() {
            assert(middle[i - before.len()] == ',');
        } else {
            assert(behind[i - before.len() - middle.len()] == ',');
        }
    }
}

// ---------------------------------------------------------------------------
// Columns
// ---------------------------------------------------------------------------
/// Columns as SQL writes them: in quotes, with a comma and a blank between them.
pub open spec fn columns_text(columns: Seq<Seq<char>>) -> Seq<char> {
    join(columns.map_values(|c: Seq<char>| seq!['"'] + c + seq!['"']), seq![',', ' '])
}

/// The columns of a list: the items between its commas, without the blanks around them
/// and without the blank ones.
pub open spec fn items(value: Seq<char>) -> Seq<Seq<char>> {
    trimmed_pieces(split(value, ','))
}

/// The column at an index is the first of a list that is not valid.
pub open spec fn is_first_invalid(list: Seq<Seq<char>>, k: int, valid: Seq<Seq<char>>) -> bool {
    &&& 0 <= k < list.len()
    &&& !valid.contains(list[k])
    &&& forall|j: int| 0 <= j < k ==> valid.contains(#[trigger] list[j])
}

/// All columns of a list are valid.
pub open spec fn are_valid(list: Seq<Seq<char>>, valid: Seq<Seq<char>>) -> bool {
    forall|j: int| 0 <= j < list.len() ==> valid.contains(#[trigger] list[j])
}

proof fn lemma_first_invalid(list: Seq<Seq<char>>, valid: Seq<Seq<char>>)
    ensures
        are_valid(list, valid) <==> first_invalid(list, valid) is None,
        forall|k: int| #[trigger]
            is_first_invalid(list, k, valid) ==> first_invalid(list, valid) == Some(list[k]),
    decreases list.len(),
{
    if list.len() > 0 {
        let rest = list.drop_first();
        lemma_first_invalid(rest, valid);
        if are_valid(list, valid) {
            assert(valid.contains(list[0]));
            assert forall|j: int| 0 <= j < rest.len() implies valid.contains(#[trigger] rest[j]) by {
                assert(rest[j] == list[j + 1]);
            }
        }
        if first_invalid(list, valid) is None {
            assert forall|j: int| 0 <= j < list.len() implies valid.contains(#[trigger] list[j]) by {
                if j > 0 {
                    assert(rest[j - 1] == list[j]);
                }
            }
        }
        assert forall|k: int| #[trigger] is_first_invalid(list, k, valid) implies first_invalid(
            list,
            valid,
        ) == Some(list[k]) by {
            if k > 0 {
                assert(valid.contains(list[0]));
                assert(rest[k - 1] == list[k]);
                assert forall|j: int| 0 <= j < k - 1 implies valid.contains(
                    #[trigger] rest[j],
                ) by {
                    assert(rest[j] == list[j + 1]);
                }
                assert(is_first_invalid(rest, k - 1, valid));
            }
        }
    }
}

proof fn lemma_not_excluded(valid: Seq<Seq<char>>, list: Seq<Seq<char>>)
    ensures
        not_excluded(valid, list) == valid.filter(|c: Seq<char>| !list.contains(c)),
    decreases valid.len(),
{
    reveal(Seq::filter);
    if valid.len() > 0 {
        lemma_not_excluded(valid.drop_last(), list);
    }
}

/// A request gets the columns that it asks for: those of its first `include`, in that
/// order; without one, all columns of the table but those of its first `exclude`, in the
/// order of the table; and without both, all. A column that the table does not have is
/// refused, the first one by name, and so is to exclude every column.
pub proof fn law_requests_get_the_columns_they_ask_for(
    parameters: Parameters,
    k: int,
    valid: Seq<Seq<char>>,
)
    ensures
        is_first(parameters, k, "include"@) ==> ({
            let list = items(parameters[k].1);
            &&& are_valid(list, valid) ==> selection(parameters, valid) == Ok::<
                Seq<char>,
                Refused,
            >(columns_text(list))
            &&& forall|i: int| #[trigger]
                is_first_invalid(list, i, valid) ==> selection(parameters, valid) == Err::<
                    Seq<char>,
                    Refused,
                >(Refused { message: "Invalid include column: "@ + list[i], status: 400 })
        }),
        has_none(parameters, "include"@) && is_first(parameters, k, "exclude"@) ==> ({
            let list = items(parameters[k].1);
            let left = valid.filter(|c: Seq<char>| !list.contains(c));
            &&& are_valid(list, valid) && left.len() > 0 ==> selection(parameters, valid) == Ok::<
                Seq<char>,
                Refused,
            >(columns_text(left))
            &&& are_valid(list, valid) && left.len() == 0 ==> selection(parameters, valid) == Err::<
                Seq<char>,
                Refused,
            >(Refused { message: "Cannot exclude all columns"@, status: 400 })
            &&& forall|i: int| #[trigger]
                is_first_invalid(list, i, valid) ==> selection(parameters, valid) == Err::<
                    Seq<char>,
                    Refused,
                >(Refused { message: "Invalid exclude column: "@ + list[i], status: 400 })
        }),
        has_none(parameters, "include"@) && has_none(parameters, "exclude"@) ==> selection(
            parameters,
            valid,
        ) == Ok::<Seq<char>, Refused>(seq!['*']),
{
    reveal_strlit("\"");
    reveal_strlit(", ");
    reveal_strlit("*");
    assert("\""@ =~= seq!['"']);
    assert(", "@ =~= seq![',', ' ']);
    assert("*"@ =~= seq!['*']);
    law_the_first_parameter_counts(parameters, "include"@);
    law_the_first_parameter_counts(parameters, "exclude"@);
    assert forall|columns: Seq<Seq<char>>| #[trigger] quoted_list(columns) == columns_text(
        columns,
    ) by {
        assert(columns.map_values(|c: Seq<char>| crate::api::query::in_quotes(c))
            =~= columns.map_values(|c: Seq<char>| seq!['"'] + c + seq!['"']));
    }
    if 0 <= k < parameters.len() {
        let list = items(parameters[k].1);
        lemma_first_invalid(list, valid);
        lemma_not_excluded(valid, list);
    }
}

/// The items of a list are those of its first part and then those of the other: the item
/// itself, without blanks around it, where it holds no comma, and none where it is blank.
pub proof fn law_items_are_taken_one_by_one(
    a: Seq<char>,
    before: Seq<char>,
    item: Seq<char>,
    behind: Seq<char>,
)
    requires
        is_blank(before),
        is_blank(behind),
        is_tight(item),
        !item.contains(','),
    ensures
        items(a + seq![','] + (before + item + behind)) == items(a) + items(
            before + item + behind,
        ),
        items(before + item + behind) == if item.len() == 0 {
            Seq::<Seq<char>>::empty()
        } else {
            seq![item]
        },
{
    let part = before + item + behind;
    lemma_blanks_have_no_comma(before);
    lemma_blanks_have_no_comma(behind);
    lemma_no_comma(before, item, behind);
    law_texts_are_cut_at_separators(a, part, ',');
    law_texts_are_cut_at_separators(part, Seq::empty(), ',');
    law_blanks_around_do_not_matter(before, item, behind);
    let none = Seq::<Seq<char>>::empty();
    assert(split(a, ',') + seq![part] =~= split(a, ',').push(part));
    assert(split(a, ',').push(part).drop_last() =~= split(a, ','));
    assert(seq![part].drop_last() =~= none);
    assert(seq![part].last() == part);
    assert(none.push(item) =~= seq![item]);
    assert(trimmed_pieces(none) =~= none);
    assert(trim(part) == item);
    assert(trimmed_pieces(seq![part]) == if item.len() == 0 {
        none
    } else {
        none.push(item)
    });
    assert(split(part, ',') == seq![part]);
    assert(trimmed_pieces(split(a, ',').push(part)) == if item.len() == 0 {
        items(a)
    } else {
        items(a).push(item)
    });
    assert(items(a) + none =~= items(a));
    assert(items(a) + seq![item] =~= items(a).push(item));
}

// ---------------------------------------------------------------------------
// The query
// ---------------------------------------------------------------------------
/// A query is made of what its parameters say: the columns, the table, all conditions,
/// which must hold together, the order, and the page, whose size and start are the last
/// two placeholders. It is refused for its columns first, then for its conditions, then
/// for its order, and for nothing else.
pub proof fn law_queries_are_made_of_their_parts(
    parameters: Parameters,
    table: Seq<char>,
    valid: Seq<Seq<char>>,
)
    ensures
        ({
            let columns = selection(parameters, valid);
            let conditions = conditions_of(parameters, valid);
            let order = requested_order(parameters, valid);
            let query = data_query(parameters, table, valid);
            &&& columns matches Err(refused) ==> query == Err::<Data, ProblemView>(
                ProblemView::Refused(refused),
            )
            &&& columns is Ok ==> (conditions matches Err(problem) ==> query == Err::<
                Data,
                ProblemView,
            >(problem))
            &&& columns is Ok && conditions is Ok ==> (order matches Err(refused) ==> query == Err::<
                Data,
                ProblemView,
            >(ProblemView::Refused(refused)))
            &&& columns is Ok && conditions is Ok && order is Ok ==> (query matches Ok(data)
                && data.values == conditions->Ok_0.values && data.sql == "SELECT "@ + columns->Ok_0
                + " FROM "@ + table + seq![' '] + (if conditions->Ok_0.clauses.len() == 0 {
                Seq::<char>::empty()
            } else {
                "WHERE "@ + join(conditions->Ok_0.clauses, " AND "@)
            }) + seq![' '] + (if order->Ok_0.len() == 0 {
                Seq::<char>::empty()
            } else {
                "ORDER BY "@ + join(order->Ok_0, ", "@)
            }) + " LIMIT ?"@ + decimal(conditions->Ok_0.clauses.len() + 1) + " OFFSET ?"@ + decimal(
                conditions->Ok_0.clauses.len() + 2,
            ))
        }),
{
    reveal_strlit(" ");
    reveal_strlit("");
    assert(" "@ =~= seq![' ']);
    assert(""@ =~= Seq::<char>::empty());
}

} // verus!
