//! The database of a provider, and answers that refuse a request.
use crate::outside::std_text::{ascii_upper, is_ascii, uppercase, uppercase_of};
use crate::pieces::{replace_char, replaced_char};
use crate::text::{chars_of, push_chars};
use vstd::prelude::*;
use vstd::string::*;

verus! {

/// An answer that refuses a request: its text and its status.
#[derive(Debug)]
pub struct Refusal {
    pub message: String,
    pub status: u16,
}

/// What a refusal says.
pub struct Refused {
    pub message: Seq<char>,
    pub status: u16,
}

impl View for Refusal {
    type V = Refused;

    open spec fn view(&self) -> Refused {
        Refused { message: self.message@, status: self.status }
    }
}

impl Refusal {
    pub fn new(message: &str, status: u16) -> (refusal: Refusal)
        ensures
            refusal@ == (Refused { message: message@, status }),
    {
        Refusal { message: message.to_owned(), status }
    }

    /// A refusal that ends with a name.
    pub fn named(before: &str, name: &str, status: u16) -> (refusal: Refusal)
        ensures
            refusal@ == (Refused { message: before@ + name@, status }),
    {
        let mut message = before.to_owned();
        message.append(name);
        Refusal { message, status }
    }

    /// A refusal with a name between two texts.
    pub fn about(before: &str, name: &str, after: &str, status: u16) -> (refusal: Refusal)
        ensures
            refusal@ == (Refused { message: before@ + name@ + after@, status }),
    {
        let mut message = before.to_owned();
        message.append(name);
        message.append(after);
        Refusal { message, status }
    }
}

/// The name of the database of a provider.
pub open spec fn binding_name(provider: Seq<char>) -> Seq<char> {
    "DB_"@ + replace_char(uppercase(provider), '-', seq!['_'])
}

/// A character of a provider in the name of its database, in ASCII.
pub open spec fn binding_char(c: char) -> char {
    without_hyphen(ascii_upper(c))
}

/// An underscore in place of a hyphen.
pub open spec fn without_hyphen(c: char) -> char {
    if c == '-' {
        '_'
    } else {
        c
    }
}

proof fn lemma_hyphens(s: Seq<char>)
    ensures
        replace_char(s, '-', seq!['_']) == s.map_values(|c: char| without_hyphen(c)),
    decreases s.len(),
{
    let mapped = s.map_values(|c: char| without_hyphen(c));
    if s.len() > 0 {
        lemma_hyphens(s.drop_last());
        assert(mapped =~= s.drop_last().map_values(|c: char| without_hyphen(c)).push(
            without_hyphen(s.last()),
        ));
    } else {
        assert(mapped =~= seq![]);
    }
}

/// The name of the database of a provider: `"mybas-johor"` gives
/// `"DB_MYBAS_JOHOR"`.
pub fn for_provider(provider: &str) -> (name: String)
    ensures
        name@ == binding_name(provider@),
        is_ascii(provider@) ==> name@ == "DB_"@ + provider@.map_values(|c: char| binding_char(c)),
{
    let upper = uppercase_of(provider);
    let underscore: Vec<char> = vec!['_'];
    assert(underscore@ =~= seq!['_']);
    let replaced = replaced_char(
        chars_of(upper.as_str()).as_slice(),
        '-',
        underscore.as_slice(),
    );
    let mut name = "DB_".to_owned();
    push_chars(&mut name, replaced.as_slice());
    proof {
        lemma_hyphens(upper@);
        assert(upper@.map_values(|c: char| without_hyphen(c)) =~= replaced@);
        if is_ascii(provider@) {
            assert(replaced@ =~= provider@.map_values(|c: char| binding_char(c)));
        }
    }
    name
}

/// The answer about a provider without a database.
pub open spec fn unknown_provider(provider: Seq<char>) -> Refused {
    Refused {
        message: "Provider '"@ + provider + "' not found or DB not bound"@,
        status: 404,
    }
}

/// The answer about a provider without a database.
pub fn provider_not_found(provider: &str) -> (refusal: Refusal)
    ensures
        refusal@ == unknown_provider(provider@),
{
    Refusal::about("Provider '", provider, "' not found or DB not bound", 404)
}

/// The answer about a failure of the database.
pub open spec fn database_failure(reason: Seq<char>) -> Refused {
    Refused { message: "Database error: "@ + reason, status: 500 }
}

/// The answer about a failure of the database.
pub fn database_error(reason: &str) -> (refusal: Refusal)
    ensures
        refusal@ == database_failure(reason@),
{
    Refusal::named("Database error: ", reason, 500)
}

} // verus!
