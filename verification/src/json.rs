//! JSON documents as far as this library reads them: objects that are looked up
//! by key, and arrays of cells.
use vstd::prelude::*;

use crate::text;
verus! {

/// A JSON number: what it is as each of the number types, and how it is printed.
#[derive(Debug)]
pub struct JsonNumber {
    pub unsigned: Option<u64>,
    pub signed: Option<i64>,
    /// The bits of the double that the number is, or that is nearest to it.
    pub float_bits: Option<u64>,
    pub text: String,
}

/// A value in a JSON array.
#[derive(Debug)]
pub enum Cell {
    Null,
    Bool(bool),
    Number(JsonNumber),
    Text(String),
    /// An array or an object, by its compact JSON text.
    Nested(String),
}

/// A JSON document or a part of one.
#[derive(Debug)]
pub enum Json {
    Object(Vec<(String, Json)>),
    Array(Vec<Cell>),
    /// Anything that is neither an object nor an array.
    Scalar,
}

pub struct NumberView {
    pub unsigned: Option<u64>,
    pub signed: Option<i64>,
    pub float_bits: Option<u64>,
    pub text: Seq<char>,
}

pub enum CellView {
    Null,
    Bool(bool),
    Number(NumberView),
    Text(Seq<char>),
    Nested(Seq<char>),
}

pub enum JsonView {
    Object(Seq<(Seq<char>, JsonView)>),
    Array(Seq<CellView>),
    Scalar,
}

impl View for JsonNumber {
    type V = NumberView;

    open spec fn view(&self) -> NumberView {
        NumberView {
            unsigned: self.unsigned,
            signed: self.signed,
            float_bits: self.float_bits,
            text: self.text@,
        }
    }
}

impl View for Cell {
    type V = CellView;

    open spec fn view(&self) -> CellView {
        match self {
            Cell::Null => CellView::Null,
            Cell::Bool(b) => CellView::Bool(*b),
            Cell::Number(n) => CellView::Number(n@),
            Cell::Text(s) => CellView::Text(s@),
            Cell::Nested(s) => CellView::Nested(s@),
        }
    }
}

/// The views of a row of cells.
pub open spec fn cells_view(cells: Seq<Cell>) -> Seq<CellView> {
    Seq::new(cells.len(), |i: int| cells[i]@)
}

impl View for Json {
    type V = JsonView;

    open spec fn view(&self) -> JsonView
        decreases self,
    {
        match self {
            Json::Object(entries) => JsonView::Object(
                Seq::new(
                    entries@.len(),
                    |i: int|
                        if 0 <= i < entries@.len() {
                            (entries@[i].0@, entries@[i].1.view())
                        } else {
                            arbitrary()
                        },
                ),
            ),
            Json::Array(cells) => JsonView::Array(cells_view(cells@)),
            Json::Scalar => JsonView::Scalar,
        }
    }
}

/// The value of the first entry with that key.
pub open spec fn lookup(entries: Seq<(Seq<char>, JsonView)>, key: Seq<char>) -> Option<JsonView>
    decreases entries.len(),
{
    if entries.len() == 0 {
        None
    } else if entries[0].0 == key {
        Some(entries[0].1)
    } else {
        lookup(entries.skip(1), key)
    }
}

impl JsonView {
    /// What stands under `key`, where this is an object that has it.
    pub open spec fn get(self, key: Seq<char>) -> Option<JsonView> {
        match self {
            JsonView::Object(entries) => lookup(entries, key),
            _ => None,
        }
    }

    /// The cells, where this is an array.
    pub open spec fn cells(self) -> Option<Seq<CellView>> {
        match self {
            JsonView::Array(cells) => Some(cells),
            _ => None,
        }
    }
}

#[verifier::external_type_specification]
#[verifier::external_body]
pub struct ExValue(serde_json::Value);

#[verifier::external_type_specification]
#[verifier::external_body]
pub struct ExJsonError(serde_json::Error);

/// What a `serde_json::Value` holds: the entries of an object with what their
/// values hold, the cells of an array, or neither.
pub uninterp spec fn json_of(value: serde_json::Value) -> JsonView;

/// What a `serde_json::Value` is as a cell of an array.
pub uninterp spec fn cell_of(value: serde_json::Value) -> CellView;

/// The document that `serde_json::from_slice` reads from the bytes, or the words for
/// its error where they are not one JSON text.
pub uninterp spec fn parsed_json(bytes: Seq<u8>) -> Result<JsonView, Seq<Seq<char>>>;

/// The words for an error of `serde_json`, and behind them those for what caused it.
pub uninterp spec fn json_error_words(error: serde_json::Error) -> Seq<Seq<char>>;

/// One level of a `serde_json::Value`.
pub enum ValueNode<'a> {
    Object(Vec<(&'a String, &'a serde_json::Value)>),
    Array(&'a Vec<serde_json::Value>),
    Other,
}

/// Calls `serde_json::from_slice`. Trusted: whether it succeeds, what the value then
/// holds, and what the error says, depend on the bytes alone.
#[verifier::external_body]
fn value_from_slice(bytes: &[u8]) -> (result: Result<serde_json::Value, serde_json::Error>)
    ensures
        match result {
            Ok(value) => parsed_json(bytes@) == Ok::<JsonView, Seq<Seq<char>>>(json_of(value)),
            Err(error) => parsed_json(bytes@) == Err::<JsonView, Seq<Seq<char>>>(
                json_error_words(error),
            ),
        },
{
    serde_json::from_slice(bytes)
}

/// Tells the variants of a `serde_json::Value` apart; for an object, calls
/// `serde_json::Map::iter`. Trusted: the entries and the items handed out are
/// those of the value.
#[verifier::external_body]
fn open_value(value: &serde_json::Value) -> (node: ValueNode<'_>)
    ensures
        match node {
            ValueNode::Object(entries) => json_of(*value) == JsonView::Object(
                Seq::new(entries@.len(), |i: int| (entries@[i].0@, json_of(*entries@[i].1))),
            ),
            ValueNode::Array(items) => json_of(*value) == JsonView::Array(
                Seq::new(items@.len(), |i: int| cell_of(items@[i])),
            ),
            ValueNode::Other => json_of(*value) == JsonView::Scalar,
        },
{
    match value {
        serde_json::Value::Object(map) => ValueNode::Object(map.iter().collect()),
        serde_json::Value::Array(items) => ValueNode::Array(items),
        _ => ValueNode::Other,
    }
}

/// Converts a `serde_json::Value` into a cell: a number by `Number::as_u64`,
/// `as_i64`, `as_f64` (its bits) and `to_string`, an array or an object by
/// `Value::to_string`. Trusted: the cell depends on the value alone.
#[verifier::external_body]
fn cell_from_value(value: &serde_json::Value) -> (cell: Cell)
    ensures
        cell@ == cell_of(*value),
{
    match value {
        serde_json::Value::Null => Cell::Null,
        serde_json::Value::Bool(value) => Cell::Bool(*value),
        serde_json::Value::Number(value) => Cell::Number(JsonNumber {
            unsigned: value.as_u64(),
            signed: value.as_i64(),
            float_bits: value.as_f64().map(|value| value.to_bits()),
            text: value.to_string(),
        }),
        serde_json::Value::String(value) => Cell::Text(value.clone()),
        nested => Cell::Nested(nested.to_string()),
    }
}

impl Json {
    /// The document that a parsed value holds.
    pub fn from_value(value: &serde_json::Value) -> (json: Json)
        ensures
            json@ == json_of(*value),
        decreases json_of(*value),
    {
        match open_value(value) {
            ValueNode::Object(entries) => {
                let mut converted: Vec<(String, Json)> = Vec::new();
                let mut i: usize = 0;
                while i < entries.len()
                    invariant
                        json_of(*value) == JsonView::Object(
                            Seq::new(
                                entries@.len(),
                                |j: int| (entries@[j].0@, json_of(*entries@[j].1)),
                            ),
                        ),
                        i <= entries.len(),
                        converted.len() == i,
                        forall|j: int|
                            0 <= j < i ==> #[trigger] converted@[j].0@ == entries@[j].0@
                                && converted@[j].1@ == json_of(*entries@[j].1),
                    decreases entries.len() - i,
                {
                    assert(decreases_to!(json_of(*value) => json_of(*entries@[i as int].1))) by {
                        let fields = json_of(*value)->Object_0;
                        assert(decreases_to!(json_of(*value) => fields));
                        assert(decreases_to!(fields => fields[i as int]));
                        assert(decreases_to!(fields[i as int] => fields[i as int].1));
                    }
                    converted.push((entries[i].0.clone(), Json::from_value(entries[i].1)));
                    i += 1;
                }
                let json = Json::Object(converted);
                assert(json@->Object_0 =~= json_of(*value)->Object_0);
                json
            },
            ValueNode::Array(items) => {
                let mut cells: Vec<Cell> = Vec::new();
                let mut i: usize = 0;
                while i < items.len()
                    invariant
                        i <= items.len(),
                        cells.len() == i,
                        forall|j: int| 0 <= j < i ==> (#[trigger] cells@[j])@ == cell_of(items@[j]),
                    decreases items.len() - i,
                {
                    cells.push(cell_from_value(&items[i]));
                    i += 1;
                }
                assert(cells_view(cells@) =~= Seq::new(items@.len(), |j: int| cell_of(items@[j])));
                Json::Array(cells)
            },
            ValueNode::Other => Json::Scalar,
        }
    }

    /// The document that the bytes write, or what is wrong where they are not one JSON
    /// text.
    pub fn parse(bytes: &[u8]) -> (json: Result<Json, serde_json::Error>)
        ensures
            match json {
                Ok(json) => parsed_json(bytes@) == Ok::<JsonView, Seq<Seq<char>>>(json@),
                Err(error) => parsed_json(bytes@) == Err::<JsonView, Seq<Seq<char>>>(
                    json_error_words(error),
                ),
            },
    {
        match value_from_slice(bytes) {
            Ok(value) => Ok(Json::from_value(&value)),
            Err(error) => Err(error),
        }
    }
}

/// What stands under `key`, where `value` is an object that has it.
pub fn object_get<'a>(value: &'a Json, key: &str) -> (found: Option<&'a Json>)
    ensures
        match found {
            Some(json) => value@.get(key@) == Some(json@),
            None => value@.get(key@) is None,
        },
{
    match value {
        Json::Object(entries) => {
            let ghost all = value@->Object_0;
            proof {
                reveal_with_fuel(<Json as View>::view, 2);
            }
            let mut i: usize = 0;
            assert(all.skip(0) =~= all);
            while i < entries.len()
                invariant
                    i <= entries.len(),
                    value@ == JsonView::Object(all),
                    all.len() == entries@.len(),
                    forall|j: int|
                        0 <= j < entries@.len() ==> #[trigger] all[j] == (
                            entries@[j].0@,
                            entries@[j].1@,
                        ),
                    lookup(all, key@) == lookup(all.skip(i as int), key@),
                decreases entries.len() - i,
            {
                assert(all.skip(i as int)[0] == all[i as int]);
                if text::same_text(entries[i].0.as_str(), key) {
                    return Some(&entries[i].1);
                }
                assert(all.skip(i as int).skip(1) =~= all.skip(i + 1));
                i += 1;
            }
            None
        },
        _ => None,
    }
}

/// The cells, where `value` is an array.
pub fn as_array(value: &Json) -> (cells: Option<&Vec<Cell>>)
    ensures
        match cells {
            Some(cells) => value@.cells() == Some(cells_view(cells@)),
            None => value@.cells() is None,
        },
{
    match value {
        Json::Array(cells) => Some(cells),
        _ => None,
    }
}

} // verus!
