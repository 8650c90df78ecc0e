//! TOML documents, read and written by the `toml` crate.
//!
//! A table of the `toml` crate is opaque to Verus. What the library reads of
//! it is named here: its entries, each value seen as a `TomlItem`. Each
//! trusted item below makes one call into `toml` and states, over these
//! names, what the crate's source shows that call to do.

use vstd::prelude::*;

verus! {

#[verifier::external_type_specification]
#[verifier::external_body]
#[verifier::reject_recursive_types(K)]
#[verifier::reject_recursive_types(V)]
pub struct ExTomlMap<K, V>(toml::map::Map<K, V>);

#[verifier::external_type_specification]
#[verifier::external_body]
pub struct ExTomlValue(toml::Value);

#[verifier::external_type_specification]
#[verifier::external_body]
pub struct ExTomlSerError(toml::ser::Error);

/// A TOML value as the library sees it: strings, integers, booleans and
/// tables by their contents; a float, date-time or array, which the library
/// never looks into, as `Other` holding that value itself.
pub enum TomlItem {
    Text(Seq<char>),
    Integer(i64),
    Boolean(bool),
    Table(Map<Seq<char>, TomlItem>),
    Other(toml::Value),
}

/// The entries of a table without entries.
pub open spec fn no_items() -> Map<Seq<char>, TomlItem> {
    Map::empty()
}

/// The entries of a table, keyed by their names.
pub uninterp spec fn table_items(t: toml::Table) -> Map<Seq<char>, TomlItem>;

/// A value of the `toml` crate as a `TomlItem`: a string, integer, boolean
/// or table by its contents, any other value as `Other` of itself.
pub uninterp spec fn value_item(v: toml::Value) -> TomlItem;

/// The entries of the table that `text` holds as a TOML document, or `None`
/// where `text` is not one.
pub uninterp spec fn parsed_items(text: Seq<char>) -> Option<Map<Seq<char>, TomlItem>>;

/// The text that `toml::to_string` writes for a table, or `None` where it
/// fails.
pub uninterp spec fn written_text(t: toml::Table) -> Option<Seq<char>>;

/// Parses a TOML document with `<toml::Table as FromStr>::from_str`.
/// Claimed: it succeeds exactly on the texts that `parsed_items` accepts, and
/// the table then holds the entries that `parsed_items` gives.
#[verifier::external_body]
pub(crate) fn parse_table(text: &str) -> (r: Option<toml::Table>)
    ensures
        r is None <==> parsed_items(text@) is None,
        r matches Some(t) ==> parsed_items(text@) == Some(table_items(t)),
{
    text.parse::<toml::Table>().ok()
}

/// An empty table, from `toml::map::Map::new`.
#[verifier::external_body]
pub(crate) fn new_table() -> (r: toml::Table)
    ensures
        table_items(r) == no_items(),
{
    toml::Table::new()
}

/// `toml::map::Map::get`: the value stored under `key`, if any.
#[verifier::external_body]
pub(crate) fn table_get<'a>(t: &'a toml::Table, key: &str) -> (r: Option<&'a toml::Value>)
    ensures
        r is Some <==> table_items(*t).contains_key(key@),
        r matches Some(v) ==> value_item(*v) == table_items(*t)[key@],
{
    t.get(key)
}

/// `toml::map::Map::contains_key`: whether an entry is stored under `key`.
#[verifier::external_body]
pub(crate) fn table_contains_key(t: &toml::Table, key: &str) -> (r: bool)
    ensures
        r == table_items(*t).contains_key(key@),
{
    t.contains_key(key)
}

/// `toml::map::Map::insert`: stores `v` under `key`, replacing what was
/// there.
#[verifier::external_body]
pub(crate) fn table_insert(t: &mut toml::Table, key: String, v: toml::Value)
    ensures
        table_items(*final(t)) == table_items(*old(t)).insert(key@, value_item(v)),
{
    t.insert(key, v);
}

/// `toml::map::Map::remove`: takes out the value stored under `key`.
#[verifier::external_body]
pub(crate) fn table_remove(t: &mut toml::Table, key: &str) -> (r: Option<toml::Value>)
    ensures
        table_items(*final(t)) == table_items(*old(t)).remove(key@),
        r is Some <==> table_items(*old(t)).contains_key(key@),
        r matches Some(v) ==> value_item(v) == table_items(*old(t))[key@],
{
    t.remove(key)
}

/// `toml::Value::as_table`: the table that a table value holds.
#[verifier::external_body]
pub(crate) fn value_as_table(v: &toml::Value) -> (r: Option<&toml::Table>)
    ensures
        match value_item(*v) {
            TomlItem::Table(m) => r matches Some(t) && table_items(*t) == m,
            _ => r is None,
        },
{
    v.as_table()
}

/// `toml::Value::as_bool`: the boolean that a boolean value holds.
#[verifier::external_body]
pub(crate) fn value_as_bool(v: &toml::Value) -> (r: Option<bool>)
    ensures
        match value_item(*v) {
            TomlItem::Boolean(b) => r == Some(b),
            _ => r is None,
        },
{
    v.as_bool()
}

/// `toml::Value::as_str`: the string that a string value holds.
#[verifier::external_body]
pub(crate) fn value_as_str(v: &toml::Value) -> (r: Option<&str>)
    ensures
        match value_item(*v) {
            TomlItem::Text(s) => r matches Some(t) && t@ == s,
            _ => r is None,
        },
{
    v.as_str()
}

/// `toml::Value::as_integer`: the integer that an integer value holds.
#[verifier::external_body]
pub(crate) fn value_as_integer(v: &toml::Value) -> (r: Option<i64>)
    ensures
        match value_item(*v) {
            TomlItem::Integer(i) => r == Some(i),
            _ => r is None,
        },
{
    v.as_integer()
}

/// The string value `toml::Value::String(s)`.
#[verifier::external_body]
pub(crate) fn string_value(s: String) -> (r: toml::Value)
    ensures
        value_item(r) == TomlItem::Text(s@),
{
    toml::Value::String(s)
}

/// The table value `toml::Value::Table(t)`.
#[verifier::external_body]
pub(crate) fn table_value(t: toml::Table) -> (r: toml::Value)
    ensures
        value_item(r) == TomlItem::Table(table_items(t)),
{
    toml::Value::Table(t)
}

/// Takes the table out of a table value; any other value comes back as it
/// was.
#[verifier::external_body]
pub(crate) fn value_into_table(v: toml::Value) -> (r: Result<toml::Table, toml::Value>)
    ensures
        match value_item(v) {
            TomlItem::Table(m) => r matches Ok(t) && table_items(t) == m,
            _ => r == Err::<toml::Table, toml::Value>(v),
        },
{
    match v {
        toml::Value::Table(t) => Ok(t),
        other => Err(other),
    }
}

/// Writes a table as TOML text with `toml::to_string`.
#[verifier::external_body]
pub(crate) fn write_table(t: &toml::Table) -> (r: Result<String, toml::ser::Error>)
    ensures
        match r {
            Ok(s) => written_text(*t) == Some(s@),
            Err(_) => written_text(*t) is None,
        },
{
    toml::to_string(t)
}

} // verus!
