use crate::catalog::text_view;
use crate::keyed::{first_where, is_key, lemma_first_where_skips};
use crate::text::same_text;
use toml::Value;
use vstd::prelude::*;

verus! {

/// One value of a TOML table, as far as the catalog reads it: an array
/// keeps, for each element, its text where the element is a string.
#[derive(Debug, PartialEq, Eq)]
pub enum FieldValue {
    Text(String),
    Integer(i64),
    Flag(bool),
    List(Vec<Option<String>>),
    Other,
}

/// What a `FieldValue` holds, as mathematical values.
pub ghost enum FieldView {
    Text(Seq<char>),
    Integer(i64),
    Flag(bool),
    List(Seq<Option<Seq<char>>>),
    Other,
}

impl View for FieldValue {
    type V = FieldView;

    open spec fn view(&self) -> FieldView {
        match *self {
            FieldValue::Text(t) => FieldView::Text(t@),
            FieldValue::Integer(n) => FieldView::Integer(n),
            FieldValue::Flag(b) => FieldView::Flag(b),
            FieldValue::List(l) => FieldView::List(Seq::new(l@.len(), |i: int| text_view(l@[i]))),
            FieldValue::Other => FieldView::Other,
        }
    }
}

/// The keys and values of a table, in the order they are held.
pub type TableView = Seq<(Seq<char>, FieldView)>;

/// The view of a list of keys and values.
pub open spec fn table_view(fields: Seq<(String, FieldValue)>) -> TableView {
    Seq::new(fields.len(), |i: int| (fields[i].0@, fields[i].1@))
}

/// The error of the TOML parser; nothing is read from it.
#[verifier::external_type_specification]
#[verifier::external_body]
pub struct ExTomlError(toml::de::Error);

/// The top-level table that the TOML parser reads from `text`, or `None`
/// where it rejects the text.
pub uninterp spec fn toml_table(text: Seq<char>) -> Option<TableView>;

/// Parses `text` with `toml::from_str` as a table and hands out its entries.
/// Nothing is claimed of the parser but that what it returns depends on the
/// text alone: an `Ok` holds the entries of `toml_table(text)`, and an `Err`
/// comes exactly where the parser rejects the text.
#[verifier::external_body]
pub(crate) fn read_table(text: &str) -> (r: Result<Vec<(String, FieldValue)>, toml::de::Error>)
    ensures
        match r {
            Ok(fields) => toml_table(text@) == Some(table_view(fields@)),
            Err(_) => toml_table(text@) is None,
        },
{
    let table = toml::from_str::<toml::value::Table>(text)?;
    Ok(table.into_iter().map(|(key, value)| (key, match value {
        Value::String(s) => FieldValue::Text(s),
        Value::Integer(n) => FieldValue::Integer(n),
        Value::Boolean(b) => FieldValue::Flag(b),
        Value::Array(a) => FieldValue::List(a.iter().map(|x| x.as_str().map(String::from)).collect()),
        _ => FieldValue::Other,
    })).collect())
}

/// The value of the first entry of `fields` whose key is `key`.
pub open spec fn lookup(fields: TableView, key: Seq<char>) -> Option<FieldView> {
    first_where(fields, is_key(key))
}

/// Finds the value held under `key`.
pub fn find<'a>(fields: &'a Vec<(String, FieldValue)>, key: &str) -> (r: Option<&'a FieldValue>)
    ensures
        match r {
            Some(v) => lookup(table_view(fields@), key@) == Some(v@),
            None => lookup(table_view(fields@), key@) is None,
        },
{
    let ghost all = table_view(fields@);
    let mut i: usize = 0;
    while i < fields.len()
        invariant
            i <= fields.len(),
            all == table_view(fields@),
            forall|k: int| 0 <= k < i ==> !is_key(key@)((#[trigger] all[k]).0),
        decreases fields.len() - i,
    {
        if same_text(fields[i].0.as_str(), key) {
            proof {
                lemma_first_where_skips(all, is_key(key@), i as int);
            }
            return Some(&fields[i].1);
        }
        i += 1;
    }
    proof {
        lemma_first_where_skips(all, is_key(key@), i as int);
    }
    None
}

} // verus!
