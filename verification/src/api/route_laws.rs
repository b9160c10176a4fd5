//! What holds of the routes of every request.
use crate::api::database::binding_name;
use crate::api::route::{route_of, segments, Route};
use crate::api::status::status_path;
use crate::outside::std_text::uppercase;
use crate::pieces::{join, replace_char, split, trim_end_char, trim_start_char};
use crate::pieces_laws::{
    is_run, law_characters_are_replaced_one_by_one, law_parts_are_joined_in_order,
    law_texts_are_cut_at_separators, law_trimming_a_character,
};
use crate::text::ascii_lowercase;
use vstd::prelude::*;
use vstd::string::*;

verus! {

/// The parts of a path: none has a slash, and the first and the last are not empty.
pub open spec fn are_parts(parts: Seq<Seq<char>>) -> bool {
    &&& parts.len() > 0
    &&& parts[0].len() > 0
    &&& parts.last().len() > 0
    &&& forall|i: int| 0 <= i < parts.len() ==> !(#[trigger] parts[i]).contains('/')
}

/// A path is cut at its slashes; those at its ends do not matter.
pub proof fn law_paths_are_cut_at_slashes(
    before: Seq<char>,
    parts: Seq<Seq<char>>,
    behind: Seq<char>,
)
    requires
        is_run(before, '/'),
        is_run(behind, '/'),
        are_parts(parts),
    ensures
        segments(before + join(parts, seq!['/']) + behind) == parts,
{
    let inner = join(parts, seq!['/']);
    let path = before + inner + behind;
    lemma_ends_of_a_path(parts);
    law_trimming_a_character(path, '/');
    let start = trim_start_char(path, '/');
    let n = path.len() - start.len();
    if n < before.len() {
        assert(start[0] == path[n]);
        assert(path[n] == before[n]);
    }
    if n > before.len() {
        assert(path.take(n)[before.len() as int] == inner[0]);
        assert(inner[0] != '/');
    }
    assert(start =~= inner + behind);
    law_trimming_a_character(start, '/');
    let front = trim_end_char(start, '/');
    let m = front.len() as int;
    if m < inner.len() {
        assert(start.skip(m)[inner.len() - 1 - m] == inner.last());
    }
    if m > inner.len() {
        assert(front.last() == behind[m - 1 - inner.len()]);
    }
    assert(front =~= inner);
    lemma_cut_again(parts);
}

proof fn lemma_ends_of_a_path(parts: Seq<Seq<char>>)
    requires
        are_parts(parts),
    ensures
        ({
            let inner = join(parts, seq!['/']);
            inner.len() > 0 && inner[0] != '/' && inner.last() != '/'
        }),
{
    let inner = join(parts, seq!['/']);
    let first = parts[0];
    let last = parts.last();
    assert(!first.contains('/'));
    assert(first[0] != '/');
    assert(!parts[parts.len() - 1].contains('/'));
    assert(last[last.len() - 1] != '/');
    law_parts_are_joined_in_order(parts, Seq::empty(), seq!['/']);
    if parts.len() > 1 {
        let front = parts.drop_last();
        let rest = parts.drop_first();
        assert(front + seq![last] =~= parts);
        assert(seq![first] + rest =~= parts);
        law_parts_are_joined_in_order(front, seq![last], seq!['/']);
        law_parts_are_joined_in_order(seq![first], rest, seq!['/']);
        law_parts_are_joined_in_order(seq![first], Seq::empty(), seq!['/']);
        law_parts_are_joined_in_order(seq![last], Seq::empty(), seq!['/']);
        assert(inner[0] == first[0]);
        assert(inner.last() == last.last());
    }
}

proof fn lemma_cut_again(parts: Seq<Seq<char>>)
    requires
        parts.len() > 0,
        forall|i: int| 0 <= i < parts.len() ==> !(#[trigger] parts[i]).contains('/'),
    ensures
        split(join(parts, seq!['/']), '/') == parts,
    decreases parts.len(),
{
    let front = parts.drop_last();
    let last = parts.last();
    assert(parts =~= front + seq![last]);
    assert(!parts[parts.len() - 1].contains('/'));
    law_parts_are_joined_in_order(front, seq![last], seq!['/']);
    law_parts_are_joined_in_order(seq![last], Seq::empty(), seq!['/']);
    law_texts_are_cut_at_separators(last, Seq::empty(), '/');
    if front.len() > 0 {
        assert forall|i: int| 0 <= i < front.len() implies !(#[trigger] front[i]).contains(
            '/',
        ) by {
            assert(front[i] == parts[i]);
        }
        lemma_cut_again(front);
        law_texts_are_cut_at_separators(join(front, seq!['/']), last, '/');
    } else {
        assert(parts =~= seq![last]);
    }
}

/// A path leads where its parts say: a provider and `status` or `sql`, nothing behind;
/// a provider, `data` and a table, whatever stands behind; and nowhere else.
pub proof fn law_routes_are_read_part_by_part(
    before: Seq<char>,
    parts: Seq<Seq<char>>,
    behind: Seq<char>,
)
    requires
        is_run(before, '/'),
        is_run(behind, '/'),
        are_parts(parts),
    ensures
        ({
            let path = before + join(parts, seq!['/']) + behind;
            let status = seq!['s', 't', 'a', 't', 'u', 's'];
            let sql = seq!['s', 'q', 'l'];
            let data = seq!['d', 'a', 't', 'a'];
            &&& parts.len() == 1 ==> route_of(path) is NotFound
            &&& parts.len() == 2 && parts[1] == status ==> route_of(path) == (Route::Status {
                provider: parts[0],
            })
            &&& parts.len() == 2 && parts[1] == sql ==> route_of(path) == (Route::Sql {
                provider: parts[0],
            })
            &&& parts.len() == 2 && parts[1] != status && parts[1] != sql ==> route_of(
                path,
            ) is NotFound
            &&& parts.len() > 2 && parts[1] == data ==> route_of(path) == (Route::Data {
                provider: parts[0],
                table_name: parts[2],
            })
            &&& parts.len() > 2 && parts[1] != data ==> route_of(path) is NotFound
        }),
{
    law_paths_are_cut_at_slashes(before, parts, behind);
    reveal_strlit("status");
    reveal_strlit("sql");
    reveal_strlit("data");
    assert("status"@ =~= seq!['s', 't', 'a', 't', 'u', 's']);
    assert("sql"@ =~= seq!['s', 'q', 'l']);
    assert("data"@ =~= seq!['d', 'a', 't', 'a']);
    if parts.len() == 1 {
        assert(parts[0].len() > 0);
    }
}

/// A path of nothing but slashes asks whether the worker runs.
pub proof fn law_an_empty_path_asks_for_health(path: Seq<char>)
    requires
        is_run(path, '/'),
    ensures
        route_of(path) is Health,
{
    law_trimming_a_character(path, '/');
    let start = trim_start_char(path, '/');
    if start.len() > 0 {
        assert(start[0] == path[path.len() - start.len()]);
    }
    law_trimming_a_character(start, '/');
    let inner = trim_end_char(start, '/');
    assert(inner =~= Seq::<char>::empty());
    law_texts_are_cut_at_separators(inner, Seq::empty(), '/');
    reveal_strlit("status");
    assert(segments(path) =~= seq![inner]);
}

/// The database of a provider is named by its characters in upper case, one by one, with
/// underscores for hyphens.
pub proof fn law_databases_are_named_by_their_provider(provider: Seq<char>, i: int)
    ensures
        ({
            let name = binding_name(provider);
            let upper = uppercase(provider);
            &&& name.len() == upper.len() + 3
            &&& name.take(3) == seq!['D', 'B', '_']
            &&& 0 <= i < upper.len() && upper[i] == '-' ==> name[i + 3] == '_'
            &&& 0 <= i < upper.len() && upper[i] != '-' ==> name[i + 3] == upper[i]
        }),
{
    reveal_strlit("DB_");
    assert("DB_"@ =~= seq!['D', 'B', '_']);
    lemma_hyphens(uppercase(provider), i);
    assert(binding_name(provider).take(3) =~= seq!['D', 'B', '_']);
}

proof fn lemma_hyphens(s: Seq<char>, i: int)
    ensures
        ({
            let t = replace_char(s, '-', seq!['_']);
            &&& t.len() == s.len()
            &&& 0 <= i < s.len() && s[i] == '-' ==> t[i] == '_'
            &&& 0 <= i < s.len() && s[i] != '-' ==> t[i] == s[i]
        }),
    decreases s.len(),
{
    if s.len() == 0 {
        law_characters_are_replaced_one_by_one(s, s, '-', seq!['_']);
        assert(s =~= Seq::empty());
    } else {
        let front = s.drop_last();
        let c = s.last();
        law_characters_are_replaced_one_by_one(front, seq![c], '-', seq!['_']);
        assert(front + seq![c] =~= s);
        lemma_hyphens(front, i);
    }
}

/// The progress of a provider has the path of its name in lower case, between a slash and
/// `/status`; it leads to that progress.
pub proof fn law_the_path_of_a_status_leads_to_it(provider: Seq<char>)
    requires
        provider.len() > 0,
        !provider.contains('/'),
    ensures
        status_path(provider) == seq!['/'] + ascii_lowercase(provider) + seq![
            '/',
            's',
            't',
            'a',
            't',
            'u',
            's',
        ],
        route_of(status_path(provider)) == (Route::Status { provider: ascii_lowercase(provider) }),
{
    let lower = ascii_lowercase(provider);
    let status = seq!['s', 't', 'a', 't', 'u', 's'];
    reveal_strlit("/");
    reveal_strlit("/status");
    assert("/"@ =~= seq!['/']);
    assert("/status"@ =~= seq!['/', 's', 't', 'a', 't', 'u', 's']);
    lemma_no_slash(provider);
    let parts = seq![lower, status];
    assert forall|i: int| 0 <= i < parts.len() implies !(#[trigger] parts[i]).contains('/') by {
        if i == 1 {
            assert(parts[i] == status);
        }
    }
    law_parts_are_joined_in_order(seq![lower], seq![status], seq!['/']);
    law_parts_are_joined_in_order(seq![lower], Seq::empty(), seq!['/']);
    law_parts_are_joined_in_order(seq![status], Seq::empty(), seq!['/']);
    assert(seq![lower] + seq![status] =~= parts);
    assert(seq!['/'] + join(parts, seq!['/']) + Seq::<char>::empty() =~= status_path(provider));
    law_routes_are_read_part_by_part(seq!['/'], parts, Seq::empty());
}

proof fn lemma_no_slash(provider: Seq<char>)
    requires
        !provider.contains('/'),
    ensures
        !ascii_lowercase(provider).contains('/'),
        ascii_lowercase(provider).len() == provider.len(),
{
    let lower = ascii_lowercase(provider);
    if lower.contains('/') {
        let i = choose|i: int| 0 <= i < lower.len() && lower[i] == '/';
        assert(provider[i] == '/');
    }
}

} // verus!
