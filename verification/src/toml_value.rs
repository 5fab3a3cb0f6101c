//! The boundary to the TOML engine.
//!
//! The manifest text is handed to the `toml` crate, which parses it into a
//! `toml::Value` tree.  That tree is opaque here; what a value holds is
//! described by the ghost tree [`TomlNode`], and every accessor the decoder
//! calls is wrapped with a contract over that model.  The crate is built with
//! its `preserve_order` feature, so a table's entries stand in the order in
//! which the document wrote them.

use vstd::prelude::*;

verus! {

/// The shape of one parsed TOML value: the manifest decoder reads strings,
/// arrays and tables; every other kind of value (integer, float, boolean,
/// datetime) is `Other`.
pub enum TomlNode {
    Str(Seq<char>),
    Arr(Seq<TomlNode>),
    Tab(Seq<(Seq<char>, TomlNode)>),
    Other,
}

#[verifier::external_type_specification]
#[verifier::external_body]
pub struct ExTomlValue(toml::Value);

#[verifier::external_type_specification]
#[verifier::external_body]
#[verifier::reject_recursive_types(K)]
#[verifier::reject_recursive_types(V)]
pub struct ExTomlMap<K, V>(toml::map::Map<K, V>);

/// What a parsed TOML value holds.
pub uninterp spec fn toml_node(v: toml::Value) -> TomlNode;

/// The entries a TOML table holds, in document order.
pub uninterp spec fn table_entries_of(t: toml::map::Map<String, toml::Value>) -> Seq<
    (Seq<char>, TomlNode),
>;

/// The value tree that the TOML engine reads out of a text, `None` where the
/// text is not well-formed TOML.
pub uninterp spec fn toml_doc_of(s: Seq<char>) -> Option<TomlNode>;

/// The first entry of `entries` whose key is `key`, if any.
pub open spec fn assoc(entries: Seq<(Seq<char>, TomlNode)>, key: Seq<char>) -> Option<TomlNode>
    decreases entries.len(),
{
    if entries.len() == 0 {
        None
    } else if entries[0].0 == key {
        Some(entries[0].1)
    } else {
        assoc(entries.drop_first(), key)
    }
}

/// Relies on `str::parse::<toml::Value>` (the `toml` crate's document
/// parser): a well-formed text yields its value tree, a malformed one an
/// error whose message carries the engine's own diagnostic.
#[verifier::external_body]
pub(crate) fn parse_toml_text(text: &str) -> (r: Result<toml::Value, String>)
    ensures
        r matches Ok(v) ==> toml_doc_of(text@) == Some(toml_node(v)),
        r is Err ==> toml_doc_of(text@) is None,
{
    match text.parse::<toml::Value>() {
        Ok(v) => Ok(v),
        Err(e) => Err(e.to_string()),
    }
}

/// Relies on `toml::Value::as_str`: `Some` exactly on a string value.
#[verifier::external_body]
pub(crate) fn value_as_str(v: &toml::Value) -> (r: Option<&str>)
    ensures
        r matches Some(s) ==> toml_node(*v) == TomlNode::Str(s@),
        r is None ==> !(toml_node(*v) is Str),
{
    v.as_str()
}

/// Relies on `toml::Value::as_array`: `Some` exactly on an array value, and
/// the elements are the array's values in order.
#[verifier::external_body]
pub(crate) fn value_as_array(v: &toml::Value) -> (r: Option<&Vec<toml::Value>>)
    ensures
        r matches Some(a) ==> {
            &&& toml_node(*v) matches TomlNode::Arr(es)
            &&& a@.len() == es.len()
            &&& forall|i: int| 0 <= i < es.len() ==> toml_node(a@[i]) == es[i]
        },
        r is None ==> !(toml_node(*v) is Arr),
{
    v.as_array()
}

/// Relies on `toml::Value::as_table`: `Some` exactly on a table value.
#[verifier::external_body]
pub(crate) fn value_as_table(v: &toml::Value) -> (r: Option<
    &toml::map::Map<String, toml::Value>,
>)
    ensures
        r matches Some(t) ==> toml_node(*v) == TomlNode::Tab(table_entries_of(*t)),
        r is None ==> !(toml_node(*v) is Tab),
{
    v.as_table()
}

/// Relies on `toml::map::Map::get`: the value stored under `key`.  A table
/// never holds a key twice, so this is the first (and only) matching entry.
#[verifier::external_body]
pub(crate) fn table_get<'a>(t: &'a toml::map::Map<String, toml::Value>, key: &str) -> (r: Option<
    &'a toml::Value,
>)
    ensures
        r matches Some(v) ==> assoc(table_entries_of(*t), key@) == Some(toml_node(*v)),
        r is None ==> assoc(table_entries_of(*t), key@) is None,
{
    t.get(key)
}

/// Relies on `toml::map::Map::iter`: the table's entries in document order.
#[verifier::external_body]
pub(crate) fn table_entries(t: &toml::map::Map<String, toml::Value>) -> (r: Vec<
    (String, toml::Value),
>)
    ensures
        r@.len() == table_entries_of(*t).len(),
        forall|i: int|
            0 <= i < r@.len() ==> r@[i].0@ == table_entries_of(*t)[i].0 && toml_node(r@[i].1)
                == table_entries_of(*t)[i].1,
{
    t.iter().map(|(k, v)| (k.clone(), v.clone())).collect()
}

} // verus!
