use crate::catalog::{list_view, text_view, Asset, AssetView};
use crate::document::{find, lookup, read_table, table_view, toml_table, FieldValue, FieldView, TableView};
use crate::text::same_text;
use vstd::prelude::*;

verus! {

/// Why a descriptor was not loaded.
#[derive(Debug, Clone, Copy, PartialEq, Eq, Structural)]
pub enum DescriptorError {
    /// The text is not a TOML document.
    Syntax,
    /// The document has a key that no descriptor has.
    UnknownField,
    /// A field holds a value of another type than the descriptor gives it.
    WrongType,
    /// `name`, `link` or `description` is absent.
    MissingField,
}

/// Whether a descriptor may hold the key `k`.
pub open spec fn known_key(k: Seq<char>) -> bool {
    ||| k == "name"@
    ||| k == "link"@
    ||| k == "description"@
    ||| k == "order"@
    ||| k == "image"@
    ||| k == "licenses"@
    ||| k == "bevy_versions"@
}

/// Whether every key of `fields` is one that a descriptor may hold.
pub open spec fn all_known(fields: TableView) -> bool {
    forall|i: int| 0 <= i < fields.len() ==> known_key((#[trigger] fields[i]).0)
}

/// The text held under `key`: `Some(None)` where the key is absent, `None`
/// where it holds something that is no text.
pub open spec fn text_at(fields: TableView, key: Seq<char>) -> Option<Option<Seq<char>>> {
    match lookup(fields, key) {
        None => Some(None),
        Some(FieldView::Text(t)) => Some(Some(t)),
        Some(_) => None,
    }
}

/// The order held under `key`: `Some(None)` where the key is absent, `None`
/// where it holds something that is no integer from 0 to `usize::MAX`.
pub open spec fn order_at(fields: TableView, key: Seq<char>) -> Option<Option<usize>> {
    match lookup(fields, key) {
        None => Some(None),
        Some(FieldView::Integer(n)) => if 0 <= n <= usize::MAX {
            Some(Some(n as usize))
        } else {
            None
        },
        Some(_) => None,
    }
}

/// Whether every element of an array is a string.
pub open spec fn all_text(l: Seq<Option<Seq<char>>>) -> bool {
    forall|i: int| 0 <= i < l.len() ==> (#[trigger] l[i]) is Some
}

/// The list of strings held under `key`: `Some(None)` where the key is
/// absent, `None` where it holds something that is no array of strings.
pub open spec fn list_at(fields: TableView, key: Seq<char>) -> Option<Option<Seq<Seq<char>>>> {
    match lookup(fields, key) {
        None => Some(None),
        Some(FieldView::List(l)) => if all_text(l) {
            Some(Some(Seq::new(l.len(), |i: int| l[i]->0)))
        } else {
            None
        },
        Some(_) => None,
    }
}

/// Whether each field of a descriptor that `fields` holds has the type the descriptor gives it.
pub open spec fn well_typed(fields: TableView) -> bool {
    &&& text_at(fields, "name"@) is Some
    &&& text_at(fields, "link"@) is Some
    &&& text_at(fields, "description"@) is Some
    &&& order_at(fields, "order"@) is Some
    &&& text_at(fields, "image"@) is Some
    &&& list_at(fields, "licenses"@) is Some
    &&& list_at(fields, "bevy_versions"@) is Some
}

/// Whether `fields` holds the three fields that every descriptor has.
pub open spec fn complete(fields: TableView) -> bool {
    &&& lookup(fields, "name"@) is Some
    &&& lookup(fields, "link"@) is Some
    &&& lookup(fields, "description"@) is Some
}

/// The asset that the table `fields`, found in the file `path`, describes.
pub open spec fn described(fields: TableView, path: Seq<char>) -> Result<
    AssetView,
    DescriptorError,
> {
    if !all_known(fields) {
        Err(DescriptorError::UnknownField)
    } else if !well_typed(fields) {
        Err(DescriptorError::WrongType)
    } else if !complete(fields) {
        Err(DescriptorError::MissingField)
    } else {
        Ok(
            AssetView {
                name: text_at(fields, "name"@)->0->0,
                link: text_at(fields, "link"@)->0->0,
                description: text_at(fields, "description"@)->0->0,
                order: order_at(fields, "order"@)->0,
                image: text_at(fields, "image"@)->0,
                licenses: list_at(fields, "licenses"@)->0,
                bevy_versions: list_at(fields, "bevy_versions"@)->0,
                original_path: Some(path),
            },
        )
    }
}

/// The asset that the descriptor `text`, found in the file `path`, describes.
pub open spec fn loaded(text: Seq<char>, path: Seq<char>) -> Result<AssetView, DescriptorError> {
    match toml_table(text) {
        None => Err(DescriptorError::Syntax),
        Some(fields) => described(fields, path),
    }
}

/// Decides `known_key`.
pub fn is_known_key(k: &str) -> (r: bool)
    ensures
        r == known_key(k@),
{
    same_text(k, "name") || same_text(k, "link") || same_text(k, "description") || same_text(
        k,
        "order",
    ) || same_text(k, "image") || same_text(k, "licenses") || same_text(k, "bevy_versions")
}

/// Decides `all_known`.
pub fn only_known_keys(fields: &Vec<(String, FieldValue)>) -> (r: bool)
    ensures
        r == all_known(table_view(fields@)),
{
    let mut i: usize = 0;
    while i < fields.len()
        invariant
            i <= fields.len(),
            forall|k: int| 0 <= k < i ==> known_key((#[trigger] table_view(fields@)[k]).0),
        decreases fields.len() - i,
    {
        if !is_known_key(fields[i].0.as_str()) {
            proof {
                assert(!known_key(table_view(fields@)[i as int].0));
            }
            return false;
        }
        i += 1;
    }
    true
}

/// Computes `text_at`.
pub fn text_field(fields: &Vec<(String, FieldValue)>, key: &str) -> (r: Option<Option<String>>)
    ensures
        match r {
            Some(t) => text_at(table_view(fields@), key@) == Some(text_view(t)),
            None => text_at(table_view(fields@), key@) is None,
        },
{
    match find(fields, key) {
        None => Some(None),
        Some(FieldValue::Text(t)) => Some(Some(t.clone())),
        Some(_) => None,
    }
}

/// Computes `order_at`.
pub fn order_field(fields: &Vec<(String, FieldValue)>, key: &str) -> (r: Option<Option<usize>>)
    ensures
        r == order_at(table_view(fields@), key@),
{
    match find(fields, key) {
        None => Some(None),
        Some(FieldValue::Integer(n)) => {
            if *n >= 0 && *n as u64 <= usize::MAX as u64 {
                Some(Some(*n as usize))
            } else {
                None
            }
        },
        Some(_) => None,
    }
}

/// Computes `list_at`.
pub fn list_field(fields: &Vec<(String, FieldValue)>, key: &str) -> (r: Option<
    Option<Vec<String>>,
>)
    ensures
        match r {
            Some(l) => list_at(table_view(fields@), key@) == Some(list_view(l)),
            None => list_at(table_view(fields@), key@) is None,
        },
{
    match find(fields, key) {
        None => Some(None),
        Some(FieldValue::List(l)) => {
            let ghost items = Seq::new(l@.len(), |i: int| text_view(l@[i]));
            let mut out: Vec<String> = Vec::new();
            let mut i: usize = 0;
            while i < l.len()
                invariant
                    i <= l.len(),
                    items == Seq::new(l@.len(), |i: int| text_view(l@[i])),
                    lookup(table_view(fields@), key@) == Some(FieldView::List(items)),
                    out@.len() == i,
                    forall|k: int| 0 <= k < i ==> (#[trigger] items[k]) == Some(out@[k]@),
                decreases l.len() - i,
            {
                match &l[i] {
                    Some(t) => {
                        out.push(t.clone());
                    },
                    None => {
                        proof {
                            assert(items[i as int] is None);
                            assert(!all_text(items));
                        }
                        return None;
                    },
                }
                i += 1;
            }
            proof {
                assert(all_text(items));
                assert(out.deep_view() =~= Seq::new(items.len(), |i: int| items[i]->0));
            }
            Some(Some(out))
        },
        Some(_) => None,
    }
}

/// Builds the asset that `fields` describes, or says why there is none.
pub fn asset_from_fields(fields: &Vec<(String, FieldValue)>, path: &str) -> (r: Result<
    Asset,
    DescriptorError,
>)
    ensures
        match r {
            Ok(asset) => described(table_view(fields@), path@) == Ok::<AssetView, DescriptorError>(
                asset@,
            ),
            Err(e) => described(table_view(fields@), path@) == Err::<AssetView, DescriptorError>(e),
        },
{
    if !only_known_keys(fields) {
        return Err(DescriptorError::UnknownField);
    }
    let name = text_field(fields, "name");
    let link = text_field(fields, "link");
    let description = text_field(fields, "description");
    let order = order_field(fields, "order");
    let image = text_field(fields, "image");
    let licenses = list_field(fields, "licenses");
    let bevy_versions = list_field(fields, "bevy_versions");
    match (name, link, description, order, image, licenses, bevy_versions) {
        (
            Some(name),
            Some(link),
            Some(description),
            Some(order),
            Some(image),
            Some(licenses),
            Some(bevy_versions),
        ) => match (name, link, description) {
            (Some(name), Some(link), Some(description)) => Ok(
                Asset {
                    name,
                    link,
                    description,
                    order,
                    image,
                    licenses,
                    bevy_versions,
                    original_path: Some(path.to_owned()),
                },
            ),
            _ => Err(DescriptorError::MissingField),
        },
        _ => Err(DescriptorError::WrongType),
    }
}

/// Loads the asset that the descriptor `text`, read from the file `path`,
/// describes. Any key other than those of a descriptor, a value of the
/// wrong type, or a missing `name`, `link` or `description` is an error.
pub fn load_descriptor(text: &str, path: &str) -> (r: Result<Asset, DescriptorError>)
    ensures
        match r {
            Ok(asset) => loaded(text@, path@) == Ok::<AssetView, DescriptorError>(asset@),
            Err(e) => loaded(text@, path@) == Err::<AssetView, DescriptorError>(e),
        },
{
    match read_table(text) {
        Ok(fields) => asset_from_fields(&fields, path),
        Err(_) => Err(DescriptorError::Syntax),
    }
}

/// A descriptor with a key that no descriptor has is never loaded.
pub proof fn lemma_unknown_field_rejected(text: Seq<char>, path: Seq<char>, i: int)
    requires
        toml_table(text) is Some,
        0 <= i < toml_table(text)->0.len(),
        !known_key(toml_table(text)->0[i].0),
    ensures
        loaded(text, path) == Err::<AssetView, DescriptorError>(DescriptorError::UnknownField),
{
}

} // verus!
