//! What holds of every query that a request writes itself.
use crate::api::sql::{limited_query, row_maximum, statement, statement_problem};
use crate::number::{decimal, parse_unsigned};
use crate::number_laws::{law_numbers_are_read_as_they_are_written, spells};
use crate::pieces::{contains_pattern, trim, trim_end, words};
use crate::pieces_laws::{
    is_blank, is_tight, law_blanks_around_do_not_matter, law_trimming_takes_the_blanks_off,
    law_words_stand_between_blanks,
};
use crate::text::{ascii_lower, ascii_lowercase, is_whitespace};
use vstd::prelude::*;
use vstd::string::*;

verus! {

/// Two characters stand side by side in a text.
pub open spec fn has_two(s: Seq<char>, first: char, second: char) -> bool {
    exists|i: int| 0 <= i < s.len() - 1 && #[trigger] s[i] == first && s[i + 1] == second
}

/// The character is a letter, in upper or in lower case.
pub open spec fn is_letter(c: char, lower: char, upper: char) -> bool {
    c == lower || c == upper
}

/// The word is `select`, in any case.
pub open spec fn is_select(word: Seq<char>) -> bool {
    &&& word.len() == 6
    &&& is_letter(word[0], 's', 'S')
    &&& is_letter(word[1], 'e', 'E')
    &&& is_letter(word[2], 'l', 'L')
    &&& is_letter(word[3], 'e', 'E')
    &&& is_letter(word[4], 'c', 'C')
    &&& is_letter(word[5], 't', 'T')
}

/// The word is `with`, in any case.
pub open spec fn is_with(word: Seq<char>) -> bool {
    &&& word.len() == 4
    &&& is_letter(word[0], 'w', 'W')
    &&& is_letter(word[1], 'i', 'I')
    &&& is_letter(word[2], 't', 'T')
    &&& is_letter(word[3], 'h', 'H')
}

/// The text begins with a word that only reads, behind which it ends or a blank stands.
pub open spec fn reads(s: Seq<char>, word: Seq<char>, rest: Seq<char>) -> bool {
    &&& s == word + rest
    &&& is_select(word) || is_with(word)
    &&& rest.len() == 0 || is_whitespace(rest[0])
}

proof fn lemma_words_of_letters(word: Seq<char>)
    ensures
        ascii_lowercase(word) == "select"@ <==> is_select(word),
        ascii_lowercase(word) == "with"@ <==> is_with(word),
{
    reveal_strlit("select");
    reveal_strlit("with");
    let lower = ascii_lowercase(word);
    assert(lower.len() == word.len());
    assert forall|i: int| 0 <= i < word.len() implies #[trigger] lower[i] == ascii_lower(
        word[i],
    ) by {}
    if is_select(word) {
        assert(lower =~= "select"@);
    }
    if is_with(word) {
        assert(lower =~= "with"@);
    }
    if lower == "select"@ {
        assert(lower[0] == 's' && lower[1] == 'e' && lower[2] == 'l' && lower[3] == 'e' && lower[4]
            == 'c' && lower[5] == 't');
    }
    if lower == "with"@ {
        assert(lower[0] == 'w' && lower[1] == 'i' && lower[2] == 't' && lower[3] == 'h');
    }
}

/// A word of letters holds no whitespace.
proof fn lemma_letters_are_no_blanks(word: Seq<char>)
    requires
        is_select(word) || is_with(word),
    ensures
        word.len() > 0,
        forall|i: int| 0 <= i < word.len() ==> !is_whitespace(#[trigger] word[i]),
{
}

proof fn lemma_pair(s: Seq<char>, pattern: Seq<char>)
    requires
        pattern.len() == 2,
    ensures
        contains_pattern(s, pattern) <==> has_two(s, pattern[0], pattern[1]),
{
    if contains_pattern(s, pattern) {
        let i = choose|i: int|
            0 <= i <= s.len() - pattern.len() && #[trigger] s.subrange(i, i + pattern.len())
                == pattern;
        let found = s.subrange(i, i + pattern.len());
        assert(found[0] == s[i] && found[1] == s[i + 1]);
    }
    if has_two(s, pattern[0], pattern[1]) {
        let i = choose|i: int|
            0 <= i < s.len() - 1 && #[trigger] s[i] == pattern[0] && s[i + 1] == pattern[1];
        assert(s.subrange(i, i + pattern.len()) =~= pattern);
    }
}

proof fn lemma_first_word(s: Seq<char>) -> (parts: (Seq<char>, Seq<char>))
    requires
        s.len() > 0,
        !is_whitespace(s[0]),
    ensures
        s == parts.0 + parts.1,
        parts.0.len() > 0,
        forall|i: int| 0 <= i < parts.0.len() ==> !is_whitespace(#[trigger] parts.0[i]),
        parts.1.len() > 0 ==> is_whitespace(parts.1[0]),
        words(s).len() > 0,
        words(s)[0] == parts.0,
    decreases s.len(),
{
    let n = lemma_blank_place(s);
    let word = s.take(n);
    let rest = s.skip(n);
    assert(s =~= word + rest);
    assert(s =~= Seq::<char>::empty() + word + rest);
    law_words_stand_between_blanks(Seq::empty(), word, rest);
    (word, rest)
}

proof fn lemma_blank_place(s: Seq<char>) -> (n: int)
    ensures
        0 <= n <= s.len(),
        forall|i: int| 0 <= i < n ==> !is_whitespace(#[trigger] s[i]),
        n < s.len() ==> is_whitespace(s[n]),
    decreases s.len(),
{
    if s.len() == 0 || is_whitespace(s[0]) {
        0
    } else {
        let rest = s.drop_first();
        let n = lemma_blank_place(rest);
        assert forall|i: int| 0 <= i < n + 1 implies !is_whitespace(#[trigger] s[i]) by {
            if i > 0 {
                assert(rest[i - 1] == s[i]);
            }
        }
        assert(n < rest.len() ==> rest[n] == s[n + 1]);
        n + 1
    }
}

/// A statement that begins with no blank is accepted exactly where it begins with the
/// word `select` or `with`, in any case, and holds no semicolon, no two hyphens side by
/// side, and no slash with an asterisk behind it. An empty one is asked for, and any
/// other is refused.
pub proof fn law_queries_that_only_read_are_accepted(sql: Seq<char>)
    requires
        sql.len() > 0 ==> !is_whitespace(sql[0]),
    ensures
        statement_problem(sql) is None <==> sql.len() > 0 && (exists|
            word: Seq<char>,
            rest: Seq<char>,
        | #[trigger]
            reads(sql, word, rest)) && !sql.contains(';') && !has_two(sql, '-', '-') && !has_two(
            sql,
            '/',
            '*',
        ),
        statement_problem(sql) matches Some(refused) ==> refused.status == 400 && (
        refused.message == if sql.len() == 0 {
            "SQL query is required"@
        } else {
            "Only one SELECT query without comments is allowed"@
        }),
{
    reveal_strlit(";");
    reveal_strlit("--");
    reveal_strlit("/*");
    lemma_pair(sql, "--"@);
    lemma_pair(sql, "/*"@);
    assert(contains_pattern(sql, ";"@) <==> sql.contains(';')) by {
        if contains_pattern(sql, ";"@) {
            let i = choose|i: int|
                0 <= i <= sql.len() - ";"@.len() && #[trigger] sql.subrange(i, i + ";"@.len())
                    == ";"@;
            assert(sql.subrange(i, i + ";"@.len())[0] == sql[i]);
        }
        if sql.contains(';') {
            let i = choose|i: int| 0 <= i < sql.len() && sql[i] == ';';
            assert(sql.subrange(i, i + ";"@.len()) =~= ";"@);
        }
    }
    if sql.len() > 0 {
        let (word, rest) = lemma_first_word(sql);
        lemma_words_of_letters(word);
        if is_select(word) || is_with(word) {
            assert(reads(sql, word, rest));
        }
        if exists|w: Seq<char>, r: Seq<char>| #[trigger] reads(sql, w, r) {
            let (w, r) = choose|w: Seq<char>, r: Seq<char>| #[trigger] reads(sql, w, r);
            lemma_letters_are_no_blanks(w);
            assert(sql =~= Seq::<char>::empty() + w + r);
            law_words_stand_between_blanks(Seq::empty(), w, r);
            assert(words(sql)[0] == w);
        }
    }
}

/// A statement is what a request says without the blanks around it and without one
/// semicolon at its end: a text with no blank at its ends and no semicolon at its end is
/// taken as it is, whatever blanks and whether a semicolon stands around it.
pub proof fn law_blanks_and_one_semicolon_do_not_matter(
    before: Seq<char>,
    sql: Seq<char>,
    between: Seq<char>,
    behind: Seq<char>,
)
    requires
        is_blank(before),
        is_blank(between),
        is_blank(behind),
        is_tight(sql),
        sql.len() > 0,
        sql.last() != ';',
    ensures
        statement(before + sql + behind) == sql,
        statement(before + (sql + between + seq![';']) + behind) == sql,
{
    law_blanks_around_do_not_matter(before, sql, behind);
    let none = Seq::<char>::empty();
    lemma_trim_end_is(sql, none);
    assert(sql + none =~= sql);
    let ended = sql + between + seq![';'];
    assert(ended.last() == ';');
    assert(ended[0] == sql[0]);
    assert(!is_whitespace(';'));
    law_blanks_around_do_not_matter(before, ended, behind);
    assert(ended.drop_last() =~= sql + between);
    lemma_trim_end_is(sql, between);
}

proof fn lemma_trim_end_is(sql: Seq<char>, blanks: Seq<char>)
    requires
        is_tight(sql),
        sql.len() > 0,
        is_blank(blanks),
    ensures
        trim_end(sql + blanks) == sql,
    decreases blanks.len(),
{
    let all = sql + blanks;
    if blanks.len() == 0 {
        assert(all =~= sql);
    } else {
        let fewer = blanks.drop_last();
        assert(is_whitespace(blanks[blanks.len() - 1]));
        assert(all.last() == blanks.last());
        assert(all.drop_last() =~= sql + fewer);
        assert forall|i: int| 0 <= i < fewer.len() implies is_whitespace(#[trigger] fewer[i]) by {
            assert(fewer[i] == blanks[i]);
        }
        lemma_trim_end_is(sql, fewer);
    }
}

/// What a request says is taken apart into blanks, its statement, at most one semicolon
/// with blanks before it, and blanks; so nothing of the statement is lost.
pub proof fn law_a_statement_is_what_the_request_says(body: Seq<char>) -> (around: (
    Seq<char>,
    Seq<char>,
))
    ensures
        body == around.0 + statement(body) + around.1,
        is_blank(around.0),
        forall|i: int|
            0 <= i < around.1.len() ==> is_whitespace(#[trigger] around.1[i]) || around.1[i] == ';',
        statement(body).len() > 0 ==> !is_whitespace(statement(body)[0]) && !is_whitespace(
            statement(body).last(),
        ),
{
    let text = trim(body);
    let outer = law_trimming_takes_the_blanks_off(body);
    let ended = text.len() > 0 && text.last() == ';';
    let kept = if ended {
        text.drop_last()
    } else {
        text
    };
    let blanks = lemma_trim_end_cuts(kept);
    let sql = statement(body);
    let middle = if ended {
        blanks + seq![';']
    } else {
        blanks
    };
    if ended {
        assert(text =~= kept + seq![';']);
    }
    assert(text =~= sql + middle);
    let behind = middle + outer.1;
    assert(body =~= outer.0 + sql + behind);
    assert forall|i: int| 0 <= i < behind.len() implies is_whitespace(#[trigger] behind[i])
        || behind[i] == ';' by {
        if i < blanks.len() {
            assert(behind[i] == blanks[i]);
        } else if i < middle.len() {
            assert(behind[i] == ';');
        } else {
            assert(behind[i] == outer.1[i - middle.len()]);
        }
    }
    if sql.len() > 0 {
        assert(sql[0] == text[0]);
    }
    (outer.0, behind)
}

proof fn lemma_trim_end_cuts(s: Seq<char>) -> (blanks: Seq<char>)
    ensures
        s == trim_end(s) + blanks,
        is_blank(blanks),
        trim_end(s).len() > 0 ==> !is_whitespace(trim_end(s).last()),
    decreases s.len(),
{
    if s.len() > 0 && is_whitespace(s.last()) {
        let fewer = lemma_trim_end_cuts(s.drop_last());
        let blanks = fewer.push(s.last());
        assert(s =~= s.drop_last().push(s.last()));
        assert(s =~= trim_end(s) + blanks);
        assert forall|i: int| 0 <= i < blanks.len() implies is_whitespace(
            #[trigger] blanks[i],
        ) by {
            if i < fewer.len() {
                assert(blanks[i] == fewer[i]);
            }
        }
        blanks
    } else {
        assert(s =~= s + Seq::<char>::empty());
        Seq::empty()
    }
}

/// What runs is the statement itself, on lines of its own within a query that limits its
/// rows.
pub proof fn law_the_statement_runs_as_it_is(sql: Seq<char>, rows: nat)
    ensures
        limited_query(sql, rows) == "SELECT * FROM ("@ + seq!['\n'] + sql + seq!['\n']
            + ") LIMIT "@ + decimal(rows),
{
    reveal_strlit("SELECT * FROM (\n");
    reveal_strlit("SELECT * FROM (");
    reveal_strlit("\n) LIMIT ");
    reveal_strlit(") LIMIT ");
    assert("SELECT * FROM (\n"@ =~= "SELECT * FROM ("@ + seq!['\n']);
    assert("\n) LIMIT "@ =~= seq!['\n'] + ") LIMIT "@);
    assert(limited_query(sql, rows) =~= "SELECT * FROM ("@ + seq!['\n'] + sql + seq!['\n']
        + ") LIMIT "@ + decimal(rows));
}

/// The most rows of a query are what is set, where that is a positive number of 32 bits,
/// with any blanks around it, and else a thousand.
pub proof fn law_the_maximum_is_what_is_set(
    before: Seq<char>,
    value: Seq<char>,
    behind: Seq<char>,
    n: nat,
)
    requires
        is_blank(before),
        is_blank(behind),
        is_tight(value),
    ensures
        row_maximum(None) == 1000,
        n <= u32::MAX && n > 0 && (exists|sign: Seq<char>, zeros: nat| #[trigger]
            spells(value, n, sign, zeros)) ==> row_maximum(Some(before + value + behind)) == n,
        (forall|m: nat, sign: Seq<char>, zeros: nat|
            0 < m <= u32::MAX ==> !#[trigger] spells(value, m, sign, zeros)) ==> row_maximum(
            Some(before + value + behind),
        ) == 1000,
{
    law_blanks_around_do_not_matter(before, value, behind);
    law_numbers_are_read_as_they_are_written(value, u32::MAX as nat, n);
    if let Some(m) = parse_unsigned(value, u32::MAX as nat) {
        law_numbers_are_read_as_they_are_written(value, u32::MAX as nat, m);
        if m > 0 {
            let (sign, zeros) = choose|sign: Seq<char>, zeros: nat| #[trigger]
                spells(value, m, sign, zeros);
            assert(spells(value, m, sign, zeros));
        }
    }
}

} // verus!
