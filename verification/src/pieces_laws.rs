//! What holds of every text that is searched, cut up or put together.
use crate::pieces::{
    begins_with, contains_pattern, ends_with, find_char, find_last_char, find_pattern, join,
    lemma_find_char, lemma_trim_start, replace_char, split, trim, trim_end,
    trim_end_char, trim_start, trim_start_char, trimmed_pieces, word_length, words,
};
use crate::text::{ascii_lower, ascii_lowercase, find_text, is_whitespace};
use vstd::prelude::*;

verus! {

// ---------------------------------------------------------------------------
// Searching
// ---------------------------------------------------------------------------
/// A text holds a pattern exactly where it is something, the pattern, and something.
pub proof fn law_patterns_stand_inside(s: Seq<char>, pattern: Seq<char>)
    ensures
        contains_pattern(s, pattern) <==> exists|before: Seq<char>, behind: Seq<char>|
            s == #[trigger] (before + pattern + behind),
{
    if contains_pattern(s, pattern) {
        let i = choose|i: int|
            0 <= i <= s.len() - pattern.len() && #[trigger] s.subrange(i, i + pattern.len())
                == pattern;
        let before = s.take(i);
        let behind = s.skip(i + pattern.len());
        assert(s =~= before + pattern + behind);
    }
    if exists|before: Seq<char>, behind: Seq<char>| s == #[trigger] (before + pattern + behind) {
        let (before, behind) = choose|before: Seq<char>, behind: Seq<char>|
            s == #[trigger] (before + pattern + behind);
        let i = before.len() as int;
        assert(s.subrange(i, i + pattern.len()) =~= pattern);
    }
}

/// A text begins with a prefix exactly where it is the prefix and something, and ends
/// with a suffix exactly where it is something and the suffix.
pub proof fn law_beginnings_and_ends(s: Seq<char>, part: Seq<char>)
    ensures
        begins_with(s, part) <==> exists|rest: Seq<char>| s == #[trigger] (part + rest),
        ends_with(s, part) <==> exists|rest: Seq<char>| s == #[trigger] (rest + part),
{
    if begins_with(s, part) {
        assert(s =~= part + s.skip(part.len() as int));
    }
    if ends_with(s, part) {
        assert(s =~= s.take(s.len() - part.len()) + part);
    }
    if exists|rest: Seq<char>| s == #[trigger] (part + rest) {
        let rest = choose|rest: Seq<char>| s == #[trigger] (part + rest);
        assert(s.take(part.len() as int) =~= part);
    }
    if exists|rest: Seq<char>| s == #[trigger] (rest + part) {
        let rest = choose|rest: Seq<char>| s == #[trigger] (rest + part);
        assert(s.skip(s.len() - part.len()) =~= part);
    }
}

/// The last place of a character: it stands there, and nowhere behind.
pub proof fn law_the_last_place_of_a_character(s: Seq<char>, c: char)
    ensures
        -1 <= find_last_char(s, c) < s.len(),
        find_last_char(s, c) >= 0 ==> s[find_last_char(s, c)] == c,
        forall|i: int| find_last_char(s, c) < i < s.len() ==> s[i] != c,
    decreases s.len(),
{
    if s.len() > 0 && s.last() != c {
        law_the_last_place_of_a_character(s.drop_last(), c);
        assert forall|i: int| find_last_char(s, c) < i < s.len() implies s[i] != c by {
            if i < s.len() - 1 {
                assert(s.drop_last()[i] == s[i]);
            }
        }
    }
}

/// The first place of a pattern: it stands there, and begins nowhere before.
pub proof fn law_the_first_place_of_a_pattern(s: Seq<char>, pattern: Seq<char>)
    ensures
        find_pattern(s, pattern) matches Some(at) ==> 0 <= at <= s.len() - pattern.len()
            && s.subrange(at, at + pattern.len()) == pattern && forall|i: int|
            0 <= i < at ==> #[trigger] s.subrange(i, i + pattern.len()) != pattern,
        find_pattern(s, pattern) is None <==> !contains_pattern(s, pattern),
    decreases s.len(),
{
    if pattern.len() <= s.len() {
        assert(s.subrange(0, pattern.len() as int) =~= s.take(pattern.len() as int));
        if s.len() == 0 {
            assert(s.take(0) =~= pattern);
        }
        if s.take(pattern.len() as int) == pattern {
            let i = 0int;
            assert(s.subrange(i, i + pattern.len()) == pattern);
        }
        if s.take(pattern.len() as int) != pattern && s.len() > 0 {
            let rest = s.drop_first();
            law_the_first_place_of_a_pattern(rest, pattern);
            assert forall|i: int| 0 <= i <= rest.len() - pattern.len() implies #[trigger] s.subrange(
                i + 1,
                i + 1 + pattern.len(),
            ) == rest.subrange(i, i + pattern.len()) by {
                assert(s.subrange(i + 1, i + 1 + pattern.len()) =~= rest.subrange(
                    i,
                    i + pattern.len(),
                ));
            }
            if let Some(at) = find_pattern(s, pattern) {
                assert(rest.subrange(at - 1, at - 1 + pattern.len()) == pattern);
                assert(s.subrange(at - 1 + 1, at - 1 + 1 + pattern.len()) == pattern);
                assert forall|i: int| 0 <= i < at implies #[trigger] s.subrange(
                    i,
                    i + pattern.len(),
                ) != pattern by {
                    if i > 0 {
                        assert(s.subrange(i - 1 + 1, i - 1 + 1 + pattern.len()) == rest.subrange(
                            i - 1,
                            i - 1 + pattern.len(),
                        ));
                    }
                }
                assert(contains_pattern(s, pattern));
            } else if contains_pattern(s, pattern) {
                let i = choose|i: int|
                    0 <= i <= s.len() - pattern.len() && #[trigger] s.subrange(
                        i,
                        i + pattern.len(),
                    ) == pattern;
                assert(i > 0);
                assert(s.subrange(i - 1 + 1, i - 1 + 1 + pattern.len()) == rest.subrange(
                    i - 1,
                    i - 1 + pattern.len(),
                ));
                assert(contains_pattern(rest, pattern));
            }
        }
    }
}

/// The first place of a text in a list: it stands there, and nowhere before; behind the
/// list where it stands nowhere.
pub proof fn law_the_first_place_of_a_text(list: Seq<Seq<char>>, text: Seq<char>)
    ensures
        0 <= find_text(list, text) <= list.len(),
        find_text(list, text) < list.len() ==> list[find_text(list, text)] == text,
        forall|i: int| 0 <= i < find_text(list, text) ==> #[trigger] list[i] != text,
    decreases list.len(),
{
    if list.len() > 0 && list[0] != text {
        let rest = list.drop_first();
        law_the_first_place_of_a_text(rest, text);
        assert forall|i: int| 0 <= i < find_text(list, text) implies #[trigger] list[i]
            != text by {
            if i > 0 {
                assert(rest[i - 1] == list[i]);
            }
        }
    }
}

// ---------------------------------------------------------------------------
// Trimming
// ---------------------------------------------------------------------------
/// The text is nothing but whitespace.
pub open spec fn is_blank(s: Seq<char>) -> bool {
    forall|i: int| 0 <= i < s.len() ==> is_whitespace(#[trigger] s[i])
}

/// The text begins and ends with no whitespace.
pub open spec fn is_tight(s: Seq<char>) -> bool {
    s.len() > 0 ==> !is_whitespace(s[0]) && !is_whitespace(s.last())
}

/// Of the characters of ASCII, the tabs, the line ends, the form feed and the blank are
/// whitespace, and no others.
pub proof fn law_ascii_whitespace(c: char)
    requires
        (c as u32) < 128,
    ensures
        is_whitespace(c) <==> c == ' ' || c == '\t' || c == '\n' || c == '\r' || (c as u32) == 11
            || (c as u32) == 12,
{
}

/// The codes of all whitespace.
pub open spec fn whitespace_codes() -> Seq<int> {
    seq![
        9int, 10int, 11int, 12int, 13int, 32int, 0x85int, 0xa0int, 0x1680int, 0x2000int,
        0x2001int, 0x2002int, 0x2003int, 0x2004int, 0x2005int, 0x2006int, 0x2007int, 0x2008int,
        0x2009int, 0x200aint, 0x2028int, 0x2029int, 0x202fint, 0x205fint, 0x3000int,
    ]
}

/// A character is whitespace exactly where its code is one of these.
pub proof fn law_whitespace_is_listed(c: char)
    ensures
        is_whitespace(c) <==> whitespace_codes().contains(c as int),
{
    let codes = whitespace_codes();
    let n = c as int;
    if 9 <= n <= 13 {
        assert(codes[n - 9] == n);
    } else if 0x2000 <= n <= 0x200a {
        assert(codes[n - 0x2000 + 9] == n);
    } else {
        assert(codes[5] == 32 && codes[6] == 0x85 && codes[7] == 0xa0 && codes[8] == 0x1680);
        assert(codes[20] == 0x2028 && codes[21] == 0x2029 && codes[22] == 0x202f && codes[23]
            == 0x205f && codes[24] == 0x3000);
    }
}

proof fn lemma_trim_end(s: Seq<char>)
    ensures
        trim_end(s).len() <= s.len(),
        trim_end(s) == s.take(trim_end(s).len() as int),
        trim_end(s).len() > 0 ==> !is_whitespace(trim_end(s).last()),
        is_blank(s.skip(trim_end(s).len() as int)),
    decreases s.len(),
{
    let n = trim_end(s).len() as int;
    if s.len() > 0 && is_whitespace(s.last()) {
        let front = s.drop_last();
        lemma_trim_end(front);
        assert(front.take(n) =~= s.take(n));
        assert forall|i: int| 0 <= i < s.skip(n).len() implies is_whitespace(
            #[trigger] s.skip(n)[i],
        ) by {
            if i < front.skip(n).len() {
                assert(front.skip(n)[i] == s.skip(n)[i]);
            }
        }
    } else {
        assert(s.take(n) =~= s);
    }
}

proof fn lemma_trim_start_is_blank(s: Seq<char>)
    ensures
        is_blank(s.take(s.len() - trim_start(s).len())),
    decreases s.len(),
{
    lemma_trim_start(s);
    let n = s.len() - trim_start(s).len();
    if s.len() > 0 && is_whitespace(s[0]) {
        let rest = s.drop_first();
        lemma_trim_start_is_blank(rest);
        lemma_trim_start(rest);
        assert forall|i: int| 0 <= i < n implies is_whitespace(#[trigger] s.take(n)[i]) by {
            if i > 0 {
                assert(rest.take(n - 1)[i - 1] == s.take(n)[i]);
            }
        }
    }
}

/// Trimming takes the whitespace off both ends, all of it and nothing else.
pub proof fn law_trimming_takes_the_blanks_off(s: Seq<char>) -> (around: (Seq<char>, Seq<char>))
    ensures
        s == around.0 + trim(s) + around.1,
        is_blank(around.0),
        is_blank(around.1),
        is_tight(trim(s)),
        trim_end(s) == around.0 + trim(s) || trim(s).len() == 0,
{
    let t = trim_start(s);
    lemma_trim_start(s);
    lemma_trim_start_is_blank(s);
    lemma_trim_end(t);
    let before = s.take(s.len() - t.len());
    let behind = t.skip(trim(s).len() as int);
    assert(t =~= trim(s) + behind);
    assert(s =~= before + trim(s) + behind);
    if trim(s).len() > 0 {
        assert(trim(s)[0] == t[0]);
        lemma_trim_end_of(before + trim(s), behind);
    }
    (before, behind)
}

proof fn lemma_trim_end_of(s: Seq<char>, blanks: Seq<char>)
    requires
        is_blank(blanks),
        s.len() > 0,
        !is_whitespace(s.last()),
    ensures
        trim_end(s + blanks) == s,
    decreases blanks.len(),
{
    let all = s + blanks;
    if blanks.len() == 0 {
        assert(all =~= s);
    } else {
        let fewer = blanks.drop_last();
        assert(is_whitespace(blanks[blanks.len() - 1]));
        assert(all.last() == blanks.last());
        assert(all.drop_last() =~= s + fewer);
        assert forall|i: int| 0 <= i < fewer.len() implies is_whitespace(#[trigger] fewer[i]) by {
            assert(fewer[i] == blanks[i]);
        }
        lemma_trim_end_of(s, fewer);
    }
}

proof fn lemma_trim_start_of(blanks: Seq<char>, s: Seq<char>)
    requires
        is_blank(blanks),
        s.len() > 0 ==> !is_whitespace(s[0]),
    ensures
        trim_start(blanks + s) == s,
    decreases blanks.len(),
{
    let all = blanks + s;
    if blanks.len() == 0 {
        assert(all =~= s);
    } else {
        let fewer = blanks.drop_first();
        assert(is_whitespace(blanks[0]));
        assert(all[0] == blanks[0]);
        assert(all.drop_first() =~= fewer + s);
        assert forall|i: int| 0 <= i < fewer.len() implies is_whitespace(#[trigger] fewer[i]) by {
            assert(fewer[i] == blanks[i + 1]);
        }
        lemma_trim_start_of(fewer, s);
    }
}

/// A text that begins and ends with no whitespace is what is left of it with blanks
/// around it.
pub proof fn law_blanks_around_do_not_matter(before: Seq<char>, s: Seq<char>, behind: Seq<char>)
    requires
        is_blank(before),
        is_blank(behind),
        is_tight(s),
    ensures
        trim(before + s + behind) == s,
{
    if s.len() > 0 {
        assert(before + s + behind =~= before + (s + behind));
        lemma_trim_start_of(before, s + behind);
        lemma_trim_end_of(s, behind);
    } else {
        let all = before + s + behind;
        assert forall|i: int| 0 <= i < all.len() implies is_whitespace(#[trigger] all[i]) by {
            if i < before.len() {
                assert(all[i] == before[i]);
            } else {
                assert(all[i] == behind[i - before.len()]);
            }
        }
        assert(all =~= all + Seq::<char>::empty());
        lemma_trim_start_of(all, Seq::empty());
        assert(s =~= Seq::empty());
    }
}

/// The character stands everywhere in the text.
pub open spec fn is_run(s: Seq<char>, c: char) -> bool {
    forall|i: int| 0 <= i < s.len() ==> s[i] == c
}

/// Taking a character off the two ends of a text takes all of them and nothing else.
pub proof fn law_trimming_a_character(s: Seq<char>, c: char)
    ensures
        ({
            let front = trim_end_char(s, c);
            &&& front.len() <= s.len()
            &&& front == s.take(front.len() as int)
            &&& front.len() > 0 ==> front.last() != c
            &&& is_run(s.skip(front.len() as int), c)
        }),
        ({
            let back = trim_start_char(s, c);
            let n = s.len() - back.len();
            &&& back.len() <= s.len()
            &&& back == s.skip(n)
            &&& back.len() > 0 ==> back[0] != c
            &&& is_run(s.take(n), c)
        }),
    decreases s.len(),
{
    let n = trim_end_char(s, c).len() as int;
    if s.len() > 0 && s.last() == c {
        let front = s.drop_last();
        law_trimming_a_character(front, c);
        assert(front.take(n) =~= s.take(n));
        assert forall|i: int| 0 <= i < s.skip(n).len() implies s.skip(n)[i] == c by {
            if i < front.skip(n).len() {
                assert(front.skip(n)[i] == s.skip(n)[i]);
            }
        }
    } else {
        assert(s.take(n) =~= s);
    }
    if s.len() > 0 && s[0] == c {
        let rest = s.drop_first();
        law_trimming_a_character(rest, c);
        let back = trim_start_char(s, c);
        let m = s.len() - back.len();
        assert(rest.skip(m - 1) =~= s.skip(m));
        assert forall|i: int| 0 <= i < m implies s.take(m)[i] == c by {
            if i > 0 {
                assert(rest.take(m - 1)[i - 1] == s.take(m)[i]);
            }
        }
    } else {
        assert(s.skip(0) =~= s);
    }
}

// ---------------------------------------------------------------------------
// Splitting and joining
// ---------------------------------------------------------------------------
/// A text is cut at every separator and nowhere else: a text without one is one piece,
/// and the pieces of two texts with a separator between them are those of the first and
/// then those of the second.
pub proof fn law_texts_are_cut_at_separators(a: Seq<char>, b: Seq<char>, sep: char)
    ensures
        !a.contains(sep) ==> split(a, sep) == seq![a],
        split(a + seq![sep] + b, sep) == split(a, sep) + split(b, sep),
    decreases a.len(),
{
    let i = find_char(a, sep);
    let all = a + seq![sep] + b;
    let k = find_char(all, sep);
    lemma_find_char(a, sep);
    lemma_find_char(all, sep);
    assert(all[a.len() as int] == sep);
    assert(all.contains(sep));
    if i < a.len() {
        assert(all[i] == sep);
        if k < i {
            assert(all[k] == a[k]);
        }
        assert(k == i);
        let rest = a.skip(i + 1);
        law_texts_are_cut_at_separators(rest, b, sep);
        assert(all.skip(i + 1) =~= rest + seq![sep] + b);
        assert(all.take(i) =~= a.take(i));
        assert(seq![a.take(i)] + (split(rest, sep) + split(b, sep)) =~= (seq![a.take(i)] + split(
            rest,
            sep,
        )) + split(b, sep));
    } else {
        if k < a.len() {
            assert(all[k] == a[k]);
            assert(a.contains(sep));
        }
        assert(k == a.len());
        assert(all.take(k) =~= a);
        assert(all.skip(k + 1) =~= b);
    }
}

/// The pieces of a text hold no separator, and make up the text with one between each
/// two of them.
pub proof fn law_pieces_make_up_the_text(s: Seq<char>, sep: char)
    ensures
        split(s, sep).len() > 0,
        forall|i: int|
            0 <= i < split(s, sep).len() ==> !(#[trigger] split(s, sep)[i]).contains(sep),
        join(split(s, sep), seq![sep]) == s,
    decreases s.len(),
{
    let i = find_char(s, sep);
    lemma_find_char(s, sep);
    let pieces = split(s, sep);
    if i < s.len() {
        let rest = s.skip(i + 1);
        law_pieces_make_up_the_text(rest, sep);
        law_parts_are_joined_in_order(seq![s.take(i)], split(rest, sep), seq![sep]);
        assert(join(seq![s.take(i)], seq![sep]) == s.take(i));
        assert(s =~= s.take(i) + seq![sep] + rest);
        assert forall|k: int| 0 <= k < pieces.len() implies !(#[trigger] pieces[k]).contains(
            sep,
        ) by {
            if k == 0 {
                let first = pieces[0];
                if first.contains(sep) {
                    let j = choose|j: int| 0 <= j < first.len() && first[j] == sep;
                    assert(s[j] == sep);
                }
            } else {
                assert(pieces[k] == split(rest, sep)[k - 1]);
            }
        }
    }
}

/// Parts are put together in order, with the separator between neighbours and nowhere
/// else.
pub proof fn law_parts_are_joined_in_order(
    some: Seq<Seq<char>>,
    more: Seq<Seq<char>>,
    sep: Seq<char>,
)
    ensures
        some.len() == 0 ==> join(some, sep).len() == 0,
        some.len() == 1 ==> join(some, sep) == some[0],
        some.len() > 0 && more.len() > 0 ==> join(some + more, sep) == join(some, sep) + sep
            + join(more, sep),
    decreases more.len(),
{
    if some.len() > 0 && more.len() > 0 {
        let all = some + more;
        let front = more.drop_last();
        assert(all.drop_last() =~= some + front);
        if front.len() == 0 {
            assert(some + front =~= some);
        } else {
            law_parts_are_joined_in_order(some, front, sep);
            assert(join(some, sep) + sep + join(front, sep) + sep + more.last() =~= join(some, sep)
                + sep + (join(front, sep) + sep + more.last()));
        }
    }
}

/// What is left of some pieces is what is left of each of them, in order: nothing of a
/// blank one, and else the piece without the blanks around it.
pub proof fn law_pieces_are_trimmed_one_by_one(some: Seq<Seq<char>>, piece: Seq<char>)
    ensures
        trimmed_pieces(Seq::empty()).len() == 0,
        is_blank(piece) ==> trimmed_pieces(some.push(piece)) == trimmed_pieces(some),
        !is_blank(piece) ==> trimmed_pieces(some.push(piece)) == trimmed_pieces(some).push(
            trim(piece),
        ),
{
    assert(some.push(piece).drop_last() =~= some);
    let around = law_trimming_takes_the_blanks_off(piece);
    if is_blank(piece) {
        assert(piece =~= piece + Seq::<char>::empty() + Seq::<char>::empty());
        law_blanks_around_do_not_matter(piece, Seq::empty(), Seq::empty());
    } else if trim(piece).len() == 0 {
        assert forall|i: int| 0 <= i < piece.len() implies is_whitespace(#[trigger] piece[i]) by {
            if i < around.0.len() {
                assert(piece[i] == around.0[i]);
            } else {
                assert(piece[i] == around.1[i - around.0.len()]);
            }
        }
    }
}

/// The first word of a text is what stands before the first whitespace, once the blanks
/// before it are gone; a blank text has no word.
pub proof fn law_words_stand_between_blanks(blanks: Seq<char>, word: Seq<char>, rest: Seq<char>)
    requires
        is_blank(blanks),
        forall|i: int| 0 <= i < word.len() ==> !is_whitespace(#[trigger] word[i]),
        rest.len() > 0 ==> is_whitespace(rest[0]),
    ensures
        word.len() > 0 ==> words(blanks + word + rest) == seq![word] + words(rest),
        words(blanks).len() == 0,
{
    lemma_no_words(blanks);
    if word.len() > 0 {
        let all = blanks + word + rest;
        assert(!is_whitespace(word[0]));
        assert(all =~= blanks + (word + rest));
        lemma_trim_start_of(blanks, word + rest);
        let t = word + rest;
        lemma_word_of(word, rest);
        assert(t.take(word.len() as int) =~= word);
        assert(t.skip(word.len() as int) =~= rest);
    }
}

proof fn lemma_no_words(blanks: Seq<char>)
    requires
        is_blank(blanks),
    ensures
        words(blanks).len() == 0,
{
    assert(blanks =~= blanks + Seq::<char>::empty());
    lemma_trim_start_of(blanks, Seq::empty());
}

proof fn lemma_word_of(word: Seq<char>, rest: Seq<char>)
    requires
        forall|i: int| 0 <= i < word.len() ==> !is_whitespace(#[trigger] word[i]),
        rest.len() > 0 ==> is_whitespace(rest[0]),
    ensures
        word_length(word + rest) == word.len(),
    decreases word.len(),
{
    let all = word + rest;
    if word.len() > 0 {
        assert(!is_whitespace(word[0]));
        let fewer = word.drop_first();
        assert(all.drop_first() =~= fewer + rest);
        assert forall|i: int| 0 <= i < fewer.len() implies !is_whitespace(
            #[trigger] fewer[i],
        ) by {
            assert(fewer[i] == word[i + 1]);
        }
        lemma_word_of(fewer, rest);
    } else {
        assert(all =~= rest);
    }
}

/// Replacing a character replaces each of them by the text and leaves the others, one by
/// one.
pub proof fn law_characters_are_replaced_one_by_one(
    a: Seq<char>,
    b: Seq<char>,
    from: char,
    to: Seq<char>,
)
    ensures
        replace_char(Seq::empty(), from, to).len() == 0,
        replace_char(seq![from], from, to) == to,
        forall|c: char| c != from ==> #[trigger] replace_char(seq![c], from, to) == seq![c],
        replace_char(a + b, from, to) == replace_char(a, from, to) + replace_char(b, from, to),
    decreases b.len(),
{
    let none = Seq::<char>::empty();
    assert(seq![from].drop_last() =~= none);
    assert(replace_char(none, from, to) + to =~= to);
    assert forall|c: char| c != from implies #[trigger] replace_char(seq![c], from, to)
        == seq![c] by {
        assert(seq![c].drop_last() =~= none);
        assert(replace_char(none, from, to) + seq![c] =~= seq![c]);
    }
    if b.len() == 0 {
        assert(a + b =~= a);
        assert(replace_char(a, from, to) + replace_char(b, from, to) =~= replace_char(a, from, to));
    } else {
        law_characters_are_replaced_one_by_one(a, b.drop_last(), from, to);
        assert((a + b).drop_last() =~= a + b.drop_last());
        let last = if b.last() == from {
            to
        } else {
            seq![b.last()]
        };
        assert(replace_char(a, from, to) + replace_char(b.drop_last(), from, to) + last
            =~= replace_char(a, from, to) + (replace_char(b.drop_last(), from, to) + last));
    }
}

// ---------------------------------------------------------------------------
// Case
// ---------------------------------------------------------------------------
/// The letters of ASCII in upper case.
pub open spec fn upper_letters() -> Seq<char> {
    seq![
        'A', 'B', 'C', 'D', 'E', 'F', 'G', 'H', 'I', 'J', 'K', 'L', 'M', 'N', 'O', 'P', 'Q', 'R',
        'S', 'T', 'U', 'V', 'W', 'X', 'Y', 'Z',
    ]
}

/// The letters of ASCII in lower case.
pub open spec fn lower_letters() -> Seq<char> {
    seq![
        'a', 'b', 'c', 'd', 'e', 'f', 'g', 'h', 'i', 'j', 'k', 'l', 'm', 'n', 'o', 'p', 'q', 'r',
        's', 't', 'u', 'v', 'w', 'x', 'y', 'z',
    ]
}

/// In lower case, each letter of ASCII becomes its own small letter, and every other
/// character stays, in its place.
pub proof fn law_lower_case_is_letter_by_letter(s: Seq<char>, i: int, k: int)
    requires
        0 <= i < s.len(),
        0 <= k < 26,
    ensures
        ascii_lowercase(s).len() == s.len(),
        s[i] == upper_letters()[k] ==> ascii_lowercase(s)[i] == lower_letters()[k],
        !upper_letters().contains(s[i]) ==> ascii_lowercase(s)[i] == s[i],
{
    assert(ascii_lowercase(s)[i] == ascii_lower(s[i]));
    if 'A' <= s[i] <= 'Z' {
        let n = (s[i] as int) - ('A' as int);
        assert(upper_letters()[n] == s[i]);
    }
}

} // verus!
