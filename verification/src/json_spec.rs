//! What this crate relies on from the `json` crate: a mathematical model of
//! a parsed value, and the contracts of the calls that read one. None of
//! these contracts is proved; each is stated from the source of `json`.

use crate::text::digit_runs_within;
use vstd::prelude::*;

verus! {

/// `json::JsonValue`, a parsed JSON value. Verus sees nothing inside it.
#[verifier::external_type_specification]
#[verifier::external_body]
pub struct ExJsonValue(json::JsonValue);

/// `json::Error`, what `json::parse` reports of a text that is no JSON.
#[verifier::external_type_specification]
#[verifier::external_body]
pub struct ExJsonError(json::Error);

/// A JSON value as mathematics.
pub enum JsonModel {
    Null,
    Boolean(bool),
    /// A number that is `mantissa` times ten to the `exponent`, negated
    /// unless `positive`.
    Number { positive: bool, mantissa: u64, exponent: i16 },
    /// The one number of `json` that is none. No text parses to it.
    NotANumber,
    /// A string, whichever way `json` stores it.
    Text(Seq<char>),
    /// An array: its members in order.
    Array(Seq<JsonModel>),
    /// An object: its entries, key and value, in the order in which `json`
    /// walks them, which is that of their insertion. No key occurs twice.
    Object(Seq<(Seq<char>, JsonModel)>),
}

/// The value of the first entry of `entries` under `key`; `Null` if there
/// is none.
pub open spec fn lookup(entries: Seq<(Seq<char>, JsonModel)>, key: Seq<char>) -> JsonModel
    decreases entries.len(),
{
    if entries.len() == 0 {
        JsonModel::Null
    } else if entries[0].0 == key {
        entries[0].1
    } else {
        lookup(entries.drop_first(), key)
    }
}

impl JsonModel {
    /// What indexing by `key` gives: the member of an object under that key,
    /// and `Null` for a key that it lacks or for a value that is no object.
    pub open spec fn member(self, key: Seq<char>) -> JsonModel {
        match self {
            JsonModel::Object(entries) => lookup(entries, key),
            _ => JsonModel::Null,
        }
    }

    /// The text of a string value.
    pub open spec fn as_text(self) -> Option<Seq<char>> {
        match self {
            JsonModel::Text(s) => Some(s),
            _ => None,
        }
    }

    /// The members of an array; none for any other value.
    pub open spec fn items(self) -> Seq<JsonModel> {
        match self {
            JsonModel::Array(items) => items,
            _ => Seq::empty(),
        }
    }

    /// The entries of an object; none for any other value.
    pub open spec fn entries(self) -> Seq<(Seq<char>, JsonModel)> {
        match self {
            JsonModel::Object(entries) => entries,
            _ => Seq::empty(),
        }
    }

    /// Sign, mantissa and exponent of a number. The number that is none
    /// counts as negative, with mantissa and exponent zero.
    pub open spec fn parts(self) -> Option<(bool, u64, i16)> {
        match self {
            JsonModel::Number { positive, mantissa, exponent } => Some(
                (positive, mantissa, exponent),
            ),
            JsonModel::NotANumber => Some((false, 0u64, 0i16)),
            _ => None,
        }
    }
}

/// What a value of the `json` crate holds. Verus cannot look into such a
/// value: the contracts below say of each call that reads one what it
/// gives, in terms of this model.
pub uninterp spec fn json_model(v: json::JsonValue) -> JsonModel;

/// What `json::parse` makes of a text: the model of the value, or `None`
/// where it reports an error.
pub uninterp spec fn parsed(source: Seq<char>) -> Option<JsonModel>;

/// What `json` prints for a number (in decimal), and for an array or an
/// object (as compact JSON).
pub uninterp spec fn printed(m: JsonModel) -> Seq<char>;

/// What a value prints as, given what `json` prints for a number, an array
/// or an object: a string prints as it is.
pub open spec fn rendered(m: JsonModel, printed: Seq<char>) -> Seq<char> {
    match m {
        JsonModel::Null => "null"@,
        JsonModel::Boolean(b) => if b {
            "true"@
        } else {
            "false"@
        },
        JsonModel::Text(s) => s,
        _ => printed,
    }
}

/// What a value prints as.
pub open spec fn text_of(m: JsonModel) -> Seq<char> {
    rendered(m, printed(m))
}

/// The longest run of digits that `json::parse` is handed.
pub const MAX_DIGITS: usize = 32767;

/// Whether `json::parse` can be handed a text: no more than `MAX_DIGITS`
/// digits stand in a row in it. The parser counts the digits behind a
/// decimal point in a number of 16 bits, and a build that checks its
/// arithmetic panics where that count runs over.
pub open spec fn readable(source: Seq<char>) -> bool {
    digit_runs_within(source, MAX_DIGITS as nat)
}

/// `json::parse` reads a whole text as one JSON value, or reports an error.
/// All that is claimed is that the outcome depends on the text alone. A text
/// with a longer run of digits than `MAX_DIGITS` is kept from it.
pub assume_specification[ json::parse ](source: &str) -> (r: json::Result<json::JsonValue>)
    requires
        readable(source@),
    ensures
        match r {
            Ok(v) => parsed(source@) == Some(json_model(v)),
            Err(_) => parsed(source@) is None,
        },
;

/// `JsonValue::new_object` makes an object without entries.
pub assume_specification[ json::JsonValue::new_object ]() -> (r: json::JsonValue)
    ensures
        json_model(r) == JsonModel::Object(Seq::empty()),
;

/// `JsonValue::as_str` gives the text of a string value, short or long, and
/// `None` for every other value.
pub assume_specification<'a>[ json::JsonValue::as_str ](v: &'a json::JsonValue) -> (r: Option<
    &'a str,
>)
    ensures
        match r {
            Some(s) => json_model(*v).as_text() == Some(s@),
            None => json_model(*v).as_text() is None,
        },
;

/// Indexing a `JsonValue` by a string gives the member of an object under
/// that key; for a key that the object lacks, and for a value that is no
/// object, it gives a `Null`.
#[verifier::external_body]
pub(crate) fn member<'a>(v: &'a json::JsonValue, key: &str) -> (r: &'a json::JsonValue)
    ensures
        json_model(*r) == json_model(*v).member(key@),
{
    &v[key]
}

/// `JsonValue::members` walks the members of an array in order, and nothing
/// for a value that is no array.
#[verifier::external_body]
pub(crate) fn members<'a>(v: &'a json::JsonValue) -> (r: Vec<&'a json::JsonValue>)
    ensures
        r@.len() == json_model(*v).items().len(),
        forall|i: int| 0 <= i < r@.len() ==> json_model(*#[trigger] r@[i]) == json_model(*v).items()[i],
{
    v.members().collect()
}

/// `JsonValue::entries` walks the entries of an object, key and value, in
/// the order of insertion, and nothing for a value that is no object.
#[verifier::external_body]
pub(crate) fn entries<'a>(v: &'a json::JsonValue) -> (r: Vec<(&'a str, &'a json::JsonValue)>)
    ensures
        r@.len() == json_model(*v).entries().len(),
        forall|i: int|
            0 <= i < r@.len() ==> (#[trigger] r@[i]).0@ == json_model(*v).entries()[i].0
                && json_model(*r@[i].1) == json_model(*v).entries()[i].1,
{
    v.entries().collect()
}

/// `JsonValue::as_number` gives the number that a value holds, if it holds
/// one, and `Number::as_parts` its sign, mantissa and exponent as they are
/// stored.
#[verifier::external_body]
pub(crate) fn number_parts(v: &json::JsonValue) -> (r: Option<(bool, u64, i16)>)
    ensures
        r == json_model(*v).parts(),
{
    match v.as_number() {
        Some(n) => Some(n.as_parts()),
        None => None,
    }
}

/// The `Display` of a `JsonValue` (here through `to_string`) writes a
/// string as it is, `true`, `false` or `null` for those values, a number in
/// decimal, and an array or an object as compact JSON. Of the last three
/// all that is claimed is that the text depends on the value alone.
#[verifier::external_body]
pub(crate) fn render(v: &json::JsonValue) -> (r: String)
    ensures
        r@ == rendered(json_model(*v), printed(json_model(*v))),
{
    v.to_string()
}

} // verus!
