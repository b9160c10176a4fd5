//! Editing the arrays of tables of a TOML text, by the `toml_edit` crate: each
//! function parses the text with `toml_edit::DocumentMut`, and a change is written
//! back with its `Display` impl, which keeps everything else as it is.
use crate::text::opt_text;
use vstd::prelude::*;

verus! {

/// The strings that stand under a key of the tables of an array, as `toml_edit`
/// reads a text: one for each table, `None` where there is no string. There is no
/// table where the text does not have the array, and no list where it has something
/// else in its place. The text of the error where the text does not parse.
pub uninterp spec fn strings_of(content: Seq<char>, array: Seq<char>, key: Seq<char>) -> Result<
    Option<Seq<Option<Seq<char>>>>,
    Seq<char>,
>;

/// The text with a string under a key of the table at an index of an array.
pub uninterp spec fn with_string(
    content: Seq<char>,
    array: Seq<char>,
    index: usize,
    key: Seq<char>,
    value: Seq<char>,
) -> Seq<char>;

/// The text with one more table in an array, of some keys with their strings.
pub uninterp spec fn with_new_table(
    content: Seq<char>,
    array: Seq<char>,
    pairs: Seq<(Seq<char>, Seq<char>)>,
) -> Seq<char>;

/// The optional strings of a list.
pub open spec fn optional_texts(list: Seq<Option<String>>) -> Seq<Option<Seq<char>>> {
    list.map_values(|s: Option<String>| opt_text(s))
}

/// The keys and the strings of a list of pairs.
pub open spec fn pair_texts(pairs: Seq<(String, String)>) -> Seq<(Seq<char>, Seq<char>)> {
    pairs.map_values(|p: (String, String)| (p.0@, p.1@))
}

/// The string under a key: that of the last pair of the key.
pub open spec fn value_under(pairs: Seq<(Seq<char>, Seq<char>)>, key: Seq<char>) -> Option<
    Seq<char>,
>
    decreases pairs.len(),
{
    if pairs.len() == 0 {
        None
    } else if pairs.last().0 == key {
        Some(pairs.last().1)
    } else {
        value_under(pairs.drop_last(), key)
    }
}

/// A text reads like another, but that a string stands under a key of the table at an
/// index of an array.
pub open spec fn is_set(
    written: Seq<char>,
    content: Seq<char>,
    array: Seq<char>,
    index: usize,
    key: Seq<char>,
    value: Seq<char>,
) -> bool {
    &&& strings_of(content, array, key) matches Ok(Some(before)) && index < before.len()
        && strings_of(written, array, key) == Ok::<Option<Seq<Option<Seq<char>>>>, Seq<char>>(
        Some(before.update(index as int, Some(value))),
    )
    &&& forall|a: Seq<char>, k: Seq<char>|
        a != array || k != key ==> #[trigger] strings_of(written, a, k) == strings_of(content, a, k)
}

/// A text reads like another with one more table behind those of an array, where it
/// parses.
pub open spec fn is_appended(
    written: Seq<char>,
    content: Seq<char>,
    array: Seq<char>,
    pairs: Seq<(Seq<char>, Seq<char>)>,
) -> bool {
    &&& forall|k: Seq<char>| #[trigger]
        strings_of(written, array, k) is Ok ==> (strings_of(content, array, k) matches Ok(
            Some(before),
        ) && strings_of(written, array, k) == Ok::<Option<Seq<Option<Seq<char>>>>, Seq<char>>(
            Some(before.push(value_under(pairs, k))),
        ))
    &&& forall|a: Seq<char>, k: Seq<char>|
        a != array && #[trigger] strings_of(written, a, k) is Ok ==> strings_of(written, a, k)
            == strings_of(content, a, k)
}

/// Reads the strings under a key of an array of tables with `DocumentMut::from_str`,
/// `Table::get`, `Item::as_array_of_tables` and `Item::as_str`: what they give is
/// named by `strings_of`.
#[verifier::external_body]
pub(crate) fn read_strings(content: &str, array: &str, key: &str) -> (read: Result<
    Option<Vec<Option<String>>>,
    String,
>)
    ensures
        match read {
            Ok(Some(list)) => strings_of(content@, array@, key@) == Ok::<
                Option<Seq<Option<Seq<char>>>>,
                Seq<char>,
            >(Some(optional_texts(list@))),
            Ok(None) => strings_of(content@, array@, key@) == Ok::<
                Option<Seq<Option<Seq<char>>>>,
                Seq<char>,
            >(None),
            Err(reason) => strings_of(content@, array@, key@) == Err::<
                Option<Seq<Option<Seq<char>>>>,
                Seq<char>,
            >(reason@),
        },
{
    let document = content.parse::<toml_edit::DocumentMut>().map_err(|error| error.to_string())?;
    let text = |item: Option<&toml_edit::Item>| item.and_then(|i| i.as_str()).map(str::to_owned);
    let tables = document.get(array).map(|item| item.as_array_of_tables());
    let strings = |list: &toml_edit::ArrayOfTables| list.iter().map(|t| text(t.get(key))).collect();
    Ok(tables.map_or(Some(Vec::new()), |list| list.map(strings)))
}

/// Sets a string of the table at an index of an array with `Item::index_mut` and
/// `toml_edit::value`. The text that results is named by `with_string`; what was
/// written is read back from it, and nothing else that can be read changes.
#[verifier::external_body]
pub(crate) fn set_string(content: &str, array: &str, index: usize, key: &str, value: &str) -> (written:
    String)
    requires
        exists|k: Seq<char>|
            #[trigger] strings_of(content@, array@, k) matches Ok(Some(list)) && index < list.len(),
    ensures
        written@ == with_string(content@, array@, index, key@, value@),
        is_set(written@, content@, array@, index, key@, value@),
{
    let mut document = content.parse::<toml_edit::DocumentMut>().unwrap_or_default();
    document[array][index][key] = toml_edit::value(value);
    document.to_string()
}

/// Appends a table to an array with `ArrayOfTables::push`; the array is new where the
/// text does not have it. The text that results is named by `with_new_table`; where
/// it parses, the strings of the new table are read back from it behind those of the
/// others, and nothing else that can be read changes. That it parses is not said of
/// every text: a table of the array whose own tables stand apart from each other may
/// have one of them written behind the new table.
#[verifier::external_body]
pub(crate) fn push_table(content: &str, array: &str, pairs: &Vec<(String, String)>) -> (written:
    String)
    requires
        exists|k: Seq<char>| #[trigger] strings_of(content@, array@, k) matches Ok(Some(_)),
    ensures
        written@ == with_new_table(content@, array@, pair_texts(pairs@)),
        is_appended(written@, content@, array@, pair_texts(pairs@)),
{
    let mut document = content.parse::<toml_edit::DocumentMut>().unwrap_or_default();
    let strings = pairs.iter().map(|(key, value)| (key.as_str(), toml_edit::value(value.as_str())));
    let table = strings.collect::<toml_edit::Table>();
    let empty = toml_edit::Item::ArrayOfTables(toml_edit::ArrayOfTables::new());
    let tables = document.entry(array).or_insert(empty);
    tables.as_array_of_tables_mut().map(|list| list.push(table));
    document.to_string()
}

} // verus!
