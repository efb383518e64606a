//! The columns of a batch of filings, on top of the Arrow array builders.
use vstd::prelude::*;

use crate::double::{self, double_is_zero, double_to_u64};
use crate::json::{self, Cell, CellView};
use crate::submissions::{self, cell_str};
use crate::text::{self, parse_u64, same_text};

verus! {

/// How many rows a batch is meant to hold.
pub const BATCH_TARGET_ROWS: usize = 100_000;

/// How many bytes of text to make room for in each row.
pub const STRING_VALUE_BYTES_PER_ROW: usize = 32;

/// How many bytes of text a column can hold.
pub const MAX_TEXT_BYTES: usize = 0x7fff_ffff;

/// What the values of a column are.
#[derive(Debug, Clone, Copy, PartialEq, Eq, Structural)]
pub enum ColumnKind {
    Utf8,
    UInt64,
    Boolean,
}

/// The values of a column.
pub enum ColumnView {
    Utf8(Seq<Seq<char>>),
    UInt64(Seq<u64>),
    Boolean(Seq<bool>),
}

/// A column of a schema.
pub struct FieldView {
    pub name: Seq<char>,
    /// Absent where the field is of a type that this library does not write.
    pub kind: Option<ColumnKind>,
    pub nullable: bool,
}

impl ColumnView {
    pub open spec fn kind(self) -> ColumnKind {
        match self {
            ColumnView::Utf8(_) => ColumnKind::Utf8,
            ColumnView::UInt64(_) => ColumnKind::UInt64,
            ColumnView::Boolean(_) => ColumnKind::Boolean,
        }
    }

    pub open spec fn len(self) -> nat {
        match self {
            ColumnView::Utf8(values) => values.len(),
            ColumnView::UInt64(values) => values.len(),
            ColumnView::Boolean(values) => values.len(),
        }
    }

    /// The column with the values of the cells behind its own.
    pub open spec fn append(self, cells: Seq<CellView>) -> ColumnView {
        match self {
            ColumnView::Utf8(values) => ColumnView::Utf8(values + cell_texts(cells)),
            ColumnView::UInt64(values) => ColumnView::UInt64(
                values + Seq::new(cells.len(), |i: int| cell_u64(cells[i])),
            ),
            ColumnView::Boolean(values) => ColumnView::Boolean(
                values + Seq::new(cells.len(), |i: int| cell_bool(cells[i])),
            ),
        }
    }

    /// There is room in the column for the text of the cells.
    pub open spec fn has_room(self, cells: Seq<CellView>) -> bool {
        match self {
            ColumnView::Utf8(values) => text_bytes(values) + text_bytes(cell_texts(cells))
                <= MAX_TEXT_BYTES,
            _ => true,
        }
    }
}

/// A column without values.
pub open spec fn empty_column(kind: ColumnKind) -> ColumnView {
    match kind {
        ColumnKind::Utf8 => ColumnView::Utf8(Seq::empty()),
        ColumnKind::UInt64 => ColumnView::UInt64(Seq::empty()),
        ColumnKind::Boolean => ColumnView::Boolean(Seq::empty()),
    }
}

pub open spec fn cell_texts(cells: Seq<CellView>) -> Seq<Seq<char>> {
    Seq::new(cells.len(), |i: int| submissions::cell_text(cells[i]))
}

/// How many bytes the texts take in UTF-8.
pub open spec fn text_bytes(texts: Seq<Seq<char>>) -> nat
    decreases texts.len(),
{
    if texts.len() == 0 {
        0
    } else {
        text_bytes(texts.drop_last()) + vstd::utf8::encode_utf8(texts.last()).len()
    }
}

/// A cell as a number: a number without its sign and fraction, one or zero for a
/// truth value, the number that a text writes, and zero for anything else.
pub open spec fn cell_u64(cell: CellView) -> u64 {
    match cell {
        CellView::Number(number) => if number.unsigned is Some {
            number.unsigned->0
        } else if number.signed is Some && number.signed->0 >= 0 {
            number.signed->0 as u64
        } else if number.float_bits is Some {
            double::truncated(number.float_bits->0)
        } else {
            0
        },
        CellView::Bool(value) => if value {
            1
        } else {
            0
        },
        CellView::Text(text) => match text::read_u64(text) {
            Some(value) => value,
            None => 0,
        },
        CellView::Null | CellView::Nested(_) => 0,
    }
}

/// A cell as a truth value: a number is true unless it is zero, a text only if it
/// is one of four.
pub open spec fn cell_bool(cell: CellView) -> bool {
    match cell {
        CellView::Bool(value) => value,
        CellView::Number(number) => if number.signed is Some {
            number.signed->0 != 0
        } else if number.unsigned is Some {
            number.unsigned->0 != 0
        } else if number.float_bits is Some {
            !double::is_zero(number.float_bits->0)
        } else {
            false
        },
        CellView::Text(text) => text == "1"@ || text == "true"@ || text == "TRUE"@ || text
            == "True"@,
        CellView::Null | CellView::Nested(_) => false,
    }
}

/// A builder of a column of texts.
#[verifier::external_body]
pub struct Utf8Column {
    builder: arrow_array::builder::StringBuilder,
}

/// A builder of a column of numbers.
#[verifier::external_body]
pub struct UInt64Column {
    builder: arrow_array::builder::UInt64Builder,
}

#[verifier::external_type_specification]
#[verifier::external_body]
pub struct ExBooleanBuilder(arrow_array::builder::BooleanBuilder);

#[verifier::external_type_specification]
#[verifier::external_body]
pub struct ExArrayData(arrow_data::ArrayData);

#[verifier::external_type_specification]
#[verifier::external_body]
pub struct ExField(arrow_schema::Field);

#[verifier::external_type_specification]
#[verifier::external_body]
pub struct ExSchema(arrow_schema::Schema);

/// The texts that were appended to the builder, in order.
pub uninterp spec fn utf8_values(column: Utf8Column) -> Seq<Seq<char>>;

/// The numbers that were appended to the builder, in order.
pub uninterp spec fn uint64_values(column: UInt64Column) -> Seq<u64>;

/// The truth values that were appended to the builder, in order.
pub uninterp spec fn boolean_values(builder: arrow_array::builder::BooleanBuilder) -> Seq<bool>;

/// The values of an array of one of the three kinds without nulls.
pub uninterp spec fn array_values(data: arrow_data::ArrayData) -> Option<ColumnView>;

/// The name, the type and the nullability of a field.
pub uninterp spec fn field_of(field: arrow_schema::Field) -> FieldView;

/// The fields of a schema, in order.
pub uninterp spec fn schema_fields(schema: arrow_schema::Schema) -> Seq<FieldView>;

/// Calls `StringBuilder::with_capacity`. Trusted: the builder starts without
/// values. The bounds keep what it allocates addressable.
#[verifier::external_body]
fn new_utf8_column(items: usize, bytes: usize) -> (column: Utf8Column)
    requires
        items <= 1_000_000,
        bytes <= 1_000_000_000,
    ensures
        utf8_values(column) == Seq::<Seq<char>>::empty(),
{
    Utf8Column { builder: arrow_array::builder::StringBuilder::with_capacity(items, bytes) }
}

/// Calls `StringBuilder::append_value`. Trusted: the text becomes the last value.
/// The call panics where the texts would take more than `MAX_TEXT_BYTES` bytes.
#[verifier::external_body]
fn utf8_append(column: &mut Utf8Column, text: &str)
    requires
        text_bytes(utf8_values(*old(column))) + vstd::utf8::encode_utf8(text@).len()
            <= MAX_TEXT_BYTES,
    ensures
        utf8_values(*final(column)) == utf8_values(*old(column)).push(text@),
{
    column.builder.append_value(text);
}

/// Calls `StringBuilder::values_slice` for its length. Trusted: it is the number
/// of bytes that the values take in UTF-8.
#[verifier::external_body]
fn utf8_text_bytes(column: &Utf8Column) -> (bytes: usize)
    ensures
        bytes == text_bytes(utf8_values(*column)),
{
    column.builder.values_slice().len()
}

/// Calls `StringBuilder::finish`. Trusted: the array holds the values that were
/// appended.
#[verifier::external_body]
fn utf8_finish(column: Utf8Column) -> (data: arrow_data::ArrayData)
    ensures
        array_values(data) == Some(ColumnView::Utf8(utf8_values(column))),
{
    let mut builder = column.builder;
    arrow_array::Array::into_data(builder.finish())
}

/// Calls `UInt64Builder::with_capacity`. Trusted: the builder starts without
/// values. The bound keeps what it allocates addressable.
#[verifier::external_body]
fn new_uint64_column(items: usize) -> (column: UInt64Column)
    requires
        items <= 1_000_000,
    ensures
        uint64_values(column) == Seq::<u64>::empty(),
{
    UInt64Column { builder: arrow_array::builder::UInt64Builder::with_capacity(items) }
}

/// Calls `UInt64Builder::append_value`. Trusted: the number becomes the last value.
#[verifier::external_body]
fn uint64_append(column: &mut UInt64Column, value: u64)
    ensures
        uint64_values(*final(column)) == uint64_values(*old(column)).push(value),
{
    column.builder.append_value(value);
}

/// Calls `UInt64Builder::finish`. Trusted: the array holds the values that were
/// appended.
#[verifier::external_body]
fn uint64_finish(column: UInt64Column) -> (data: arrow_data::ArrayData)
    ensures
        array_values(data) == Some(ColumnView::UInt64(uint64_values(column))),
{
    let mut builder = column.builder;
    arrow_array::Array::into_data(builder.finish())
}

/// Calls `BooleanBuilder::with_capacity`. Trusted: the builder starts without
/// values. The bound keeps what it allocates addressable.
#[verifier::external_body]
fn new_boolean_builder(items: usize) -> (builder: arrow_array::builder::BooleanBuilder)
    requires
        items <= 1_000_000,
    ensures
        boolean_values(builder) == Seq::<bool>::empty(),
{
    arrow_array::builder::BooleanBuilder::with_capacity(items)
}

/// Calls `BooleanBuilder::append_value`. Trusted: the truth value becomes the last
/// value.
#[verifier::external_body]
fn boolean_append(builder: &mut arrow_array::builder::BooleanBuilder, value: bool)
    ensures
        boolean_values(*final(builder)) == boolean_values(*old(builder)).push(value),
{
    builder.append_value(value);
}

/// Calls `BooleanBuilder::finish`. Trusted: the array holds the values that were
/// appended.
#[verifier::external_body]
fn boolean_finish(builder: arrow_array::builder::BooleanBuilder) -> (data: arrow_data::ArrayData)
    ensures
        array_values(data) == Some(ColumnView::Boolean(boolean_values(builder))),
{
    let mut builder = builder;
    arrow_array::Array::into_data(builder.finish())
}

/// Calls `Field::new` with the data type of that kind. Trusted: the field has the
/// name, the type and the nullability that it is given.
#[verifier::external_body]
pub(crate) fn new_field(name: &str, kind: ColumnKind, nullable: bool) -> (field:
    arrow_schema::Field)
    ensures
        field_of(field) == (FieldView { name: name@, kind: Some(kind), nullable }),
{
    let data_type = match kind {
        ColumnKind::Utf8 => arrow_schema::DataType::Utf8,
        ColumnKind::UInt64 => arrow_schema::DataType::UInt64,
        ColumnKind::Boolean => arrow_schema::DataType::Boolean,
    };
    arrow_schema::Field::new(name, data_type, nullable)
}

/// Calls `Schema::new`. Trusted: the schema has the fields that it is given, in
/// their order.
#[verifier::external_body]
pub(crate) fn new_schema(fields: Vec<arrow_schema::Field>) -> (schema: arrow_schema::Schema)
    ensures
        schema_fields(schema) == Seq::new(fields@.len(), |i: int| field_of(fields@[i])),
{
    arrow_schema::Schema::new(fields)
}

/// A batch of rows with its schema.
#[verifier::external_body]
pub struct ColumnBatch {
    pub batch: arrow_array::RecordBatch,
}

#[verifier::external_type_specification]
#[verifier::external_body]
pub struct ExArrowError(arrow_schema::ArrowError);

/// The values of the columns of a batch.
pub uninterp spec fn batch_columns(batch: ColumnBatch) -> Seq<Option<ColumnView>>;

/// The fields of the schema of a batch.
pub uninterp spec fn batch_fields(batch: ColumnBatch) -> Seq<FieldView>;

/// The columns are as many as the fields, of their kinds, and of one length.
pub open spec fn batch_fits(fields: Seq<FieldView>, columns: Seq<Option<ColumnView>>) -> bool {
    &&& 0 < columns.len() == fields.len()
    &&& forall|k: int|
        0 <= k < columns.len() ==> {
            &&& (#[trigger] columns[k]) is Some
            &&& fields[k].kind == Some(columns[k]->0.kind())
            &&& columns[k]->0.len() == columns[0]->0.len()
        }
}

/// What the arrays hold.
pub open spec fn arrays_values(arrays: Seq<arrow_data::ArrayData>) -> Seq<Option<ColumnView>> {
    Seq::new(arrays.len(), |k: int| array_values(arrays[k]))
}

/// Calls `RecordBatch::try_new` on what `make_array` gives for each array.
/// Trusted: it succeeds if and only if the columns fit the schema, and the batch has
/// those columns and that schema.
#[verifier::external_body]
pub(crate) fn new_batch(
    schema: std::sync::Arc<arrow_schema::Schema>,
    arrays: Vec<arrow_data::ArrayData>,
) -> (batch: Result<ColumnBatch, arrow_schema::ArrowError>)
    requires
        forall|k: int| 0 <= k < arrays@.len() ==> array_values(#[trigger] arrays@[k]) is Some,
    ensures
        match batch {
            Ok(batch) => {
                &&& batch_fits(schema_fields(*schema), arrays_values(arrays@))
                &&& batch_columns(batch) == arrays_values(arrays@)
                &&& batch_fields(batch) == schema_fields(*schema)
            },
            Err(_) => !batch_fits(schema_fields(*schema), arrays_values(arrays@)),
        },
{
    let arrays = arrays.into_iter().map(arrow_array::make_array).collect();
    arrow_array::RecordBatch::try_new(schema, arrays).map(|batch| ColumnBatch { batch })
}

/// The values of a column as they are gathered.
pub enum ColumnBuffer {
    Utf8(Utf8Column),
    UInt64(UInt64Column),
    Boolean(arrow_array::builder::BooleanBuilder),
}

pub proof fn lemma_text_bytes_concat(a: Seq<Seq<char>>, b: Seq<Seq<char>>)
    ensures
        text_bytes(a + b) == text_bytes(a) + text_bytes(b),
    decreases b.len(),
{
    if b.len() == 0 {
        assert(a + b =~= a);
    } else {
        assert((a + b).drop_last() =~= a + b.drop_last());
        lemma_text_bytes_concat(a, b.drop_last());
    }
}

proof fn lemma_text_bytes_prefix(texts: Seq<Seq<char>>, n: int)
    requires
        0 <= n <= texts.len(),
    ensures
        text_bytes(texts.take(n)) <= text_bytes(texts),
{
    lemma_text_bytes_concat(texts.take(n), texts.skip(n));
    assert(texts.take(n) + texts.skip(n) =~= texts);
}

pub proof fn lemma_append_nothing(column: ColumnView)
    ensures
        column.append(Seq::empty()) == column,
{
    let cells = Seq::<CellView>::empty();
    match column {
        ColumnView::Utf8(values) => {
            assert(values + cell_texts(cells) =~= values);
        },
        ColumnView::UInt64(values) => {
            assert(values + Seq::new(cells.len(), |i: int| cell_u64(cells[i])) =~= values);
        },
        ColumnView::Boolean(values) => {
            assert(values + Seq::new(cells.len(), |i: int| cell_bool(cells[i])) =~= values);
        },
    }
}

/// A column with room for the cells has room for each behind those before it.
proof fn lemma_append_next(column: ColumnView, cells: Seq<CellView>, i: int)
    requires
        0 <= i < cells.len(),
        column.has_room(cells),
    ensures
        column.append(cells.take(i)).has_room(seq![cells[i]]),
        column.append(cells.take(i)).append(seq![cells[i]]) == column.append(cells.take(i + 1)),
{
    let before = cells.take(i);
    let one = seq![cells[i]];
    let next = cells.take(i + 1);
    match column {
        ColumnView::Utf8(values) => {
            lemma_text_bytes_concat(values, cell_texts(before));
            lemma_text_bytes_concat(cell_texts(before), cell_texts(one));
            assert(cell_texts(before) + cell_texts(one) =~= cell_texts(next));
            lemma_text_bytes_prefix(cell_texts(cells), i + 1);
            assert(cell_texts(cells).take(i + 1) =~= cell_texts(next));
            assert(values + cell_texts(before) + cell_texts(one) =~= values + cell_texts(next));
        },
        ColumnView::UInt64(values) => {
            assert(values + Seq::new(before.len(), |k: int| cell_u64(before[k])) + Seq::new(
                one.len(),
                |k: int| cell_u64(one[k]),
            ) =~= values + Seq::new(next.len(), |k: int| cell_u64(next[k])));
        },
        ColumnView::Boolean(values) => {
            assert(values + Seq::new(before.len(), |k: int| cell_bool(before[k])) + Seq::new(
                one.len(),
                |k: int| cell_bool(one[k]),
            ) =~= values + Seq::new(next.len(), |k: int| cell_bool(next[k])));
        },
    }
}

/// The finished array of a list of numbers.
pub fn uint64_array(values: &Vec<u64>) -> (data: arrow_data::ArrayData)
    ensures
        array_values(data) == Some(ColumnView::UInt64(values@)),
{
    let capacity: usize = if values.len() <= BATCH_TARGET_ROWS {
        values.len()
    } else {
        BATCH_TARGET_ROWS
    };
    let mut column = new_uint64_column(capacity);
    let mut i: usize = 0;
    while i < values.len()
        invariant
            i <= values.len(),
            uint64_values(column) == values@.take(i as int),
        decreases values.len() - i,
    {
        uint64_append(&mut column, values[i]);
        assert(values@.take(i + 1) =~= values@.take(i as int).push(values@[i as int]));
        i += 1;
    }
    assert(values@.take(i as int) =~= values@);
    uint64_finish(column)
}

/// A builder with room for a batch.
pub fn string_builder() -> (column: Utf8Column)
    ensures
        utf8_values(column) == Seq::<Seq<char>>::empty(),
{
    new_utf8_column(BATCH_TARGET_ROWS, BATCH_TARGET_ROWS * STRING_VALUE_BYTES_PER_ROW)
}

/// Appends a cell as text.
pub fn append_metadata_value_string(builder: &mut Utf8Column, value: &Cell)
    requires
        text_bytes(utf8_values(*old(builder))) + vstd::utf8::encode_utf8(
            submissions::cell_text(value@),
        ).len() <= MAX_TEXT_BYTES,
    ensures
        utf8_values(*final(builder)) == utf8_values(*old(builder)).push(
            submissions::cell_text(value@),
        ),
{
    utf8_append(builder, cell_str(value));
}

/// A cell as a number.
pub fn metadata_value_u64(value: &Cell) -> (number: u64)
    ensures
        number == cell_u64(value@),
{
    match value {
        Cell::Number(value) => {
            if let Some(number) = value.unsigned {
                return number;
            }
            if let Some(number) = value.signed {
                if number >= 0 {
                    return number as u64;
                }
            }
            match value.float_bits {
                Some(bits) => double_to_u64(bits),
                None => 0,
            }
        },
        Cell::Bool(value) => if *value {
            1
        } else {
            0
        },
        Cell::Text(value) => match parse_u64(value.as_str()) {
            Some(number) => number,
            None => 0,
        },
        Cell::Null | Cell::Nested(_) => 0,
    }
}

/// A cell as a truth value.
pub fn metadata_value_bool(value: &Cell) -> (truth: bool)
    ensures
        truth == cell_bool(value@),
{
    match value {
        Cell::Bool(value) => *value,
        Cell::Number(value) => {
            if let Some(number) = value.signed {
                return number != 0;
            }
            if let Some(number) = value.unsigned {
                return number != 0;
            }
            match value.float_bits {
                Some(bits) => !double_is_zero(bits),
                None => false,
            }
        },
        Cell::Text(value) => {
            let text = value.as_str();
            same_text(text, "1") || same_text(text, "true") || same_text(text, "TRUE")
                || same_text(text, "True")
        },
        Cell::Null | Cell::Nested(_) => false,
    }
}

impl ColumnBuffer {
    /// The values gathered so far.
    pub open spec fn values(self) -> ColumnView {
        match self {
            ColumnBuffer::Utf8(column) => ColumnView::Utf8(utf8_values(column)),
            ColumnBuffer::UInt64(column) => ColumnView::UInt64(uint64_values(column)),
            ColumnBuffer::Boolean(builder) => ColumnView::Boolean(boolean_values(builder)),
        }
    }

    /// A column of that kind without values.
    pub fn new(kind: ColumnKind) -> (column: Self)
        ensures
            column.values() == empty_column(kind),
    {
        match kind {
            ColumnKind::Utf8 => ColumnBuffer::Utf8(string_builder()),
            ColumnKind::UInt64 => ColumnBuffer::UInt64(new_uint64_column(BATCH_TARGET_ROWS)),
            ColumnKind::Boolean => ColumnBuffer::Boolean(new_boolean_builder(BATCH_TARGET_ROWS)),
        }
    }

    /// Appends the value of a cell.
    pub fn push(&mut self, value: &Cell)
        requires
            old(self).values().has_room(seq![value@]),
        ensures
            final(self).values() == old(self).values().append(seq![value@]),
    {
        let ghost one = seq![value@];
        proof {
            reveal_with_fuel(text_bytes, 2);
            assert(text_bytes(cell_texts(one)) == vstd::utf8::encode_utf8(
                submissions::cell_text(value@),
            ).len());
        }
        match self {
            ColumnBuffer::Utf8(values) => {
                let ghost before = utf8_values(*values);
                append_metadata_value_string(values, value);
                assert(utf8_values(*values) =~= before + cell_texts(one));
            },
            ColumnBuffer::UInt64(values) => {
                let ghost before = uint64_values(*values);
                uint64_append(values, metadata_value_u64(value));
                assert(uint64_values(*values) =~= before + Seq::new(
                    one.len(),
                    |i: int| cell_u64(one[i]),
                ));
            },
            ColumnBuffer::Boolean(values) => {
                let ghost before = boolean_values(*values);
                boolean_append(values, metadata_value_bool(value));
                assert(boolean_values(*values) =~= before + Seq::new(
                    one.len(),
                    |i: int| cell_bool(one[i]),
                ));
            },
        }
    }

    /// Appends the values of the first `rows` cells.
    pub fn push_all(&mut self, cells: &Vec<Cell>, rows: usize)
        requires
            rows <= cells.len(),
            old(self).values().has_room(json::cells_view(cells@).take(rows as int)),
        ensures
            final(self).values() == old(self).values().append(
                json::cells_view(cells@).take(rows as int),
            ),
    {
        let ghost start = self.values();
        let ghost all = json::cells_view(cells@).take(rows as int);
        let mut i: usize = 0;
        proof {
            lemma_append_nothing(start);
            assert(all.take(0) =~= Seq::empty());
        }
        while i < rows
            invariant
                i <= rows <= cells.len(),
                all == json::cells_view(cells@).take(rows as int),
                start.has_room(all),
                self.values() == start.append(all.take(i as int)),
            decreases rows - i,
        {
            proof {
                lemma_append_next(start, all, i as int);
            }
            self.push(&cells[i]);
            i += 1;
        }
        assert(all.take(i as int) =~= all);
    }

    /// Hands the column over and leaves one of the same kind without values.
    pub fn take(&mut self) -> (taken: Self)
        ensures
            taken.values() == old(self).values(),
            final(self).values() == empty_column(old(self).values().kind()),
    {
        match self {
            ColumnBuffer::Utf8(values) => {
                let mut old_values = string_builder();
                std::mem::swap(values, &mut old_values);
                ColumnBuffer::Utf8(old_values)
            },
            ColumnBuffer::UInt64(values) => {
                let mut old_values = new_uint64_column(BATCH_TARGET_ROWS);
                std::mem::swap(values, &mut old_values);
                ColumnBuffer::UInt64(old_values)
            },
            ColumnBuffer::Boolean(values) => {
                let mut old_values = new_boolean_builder(BATCH_TARGET_ROWS);
                std::mem::swap(values, &mut old_values);
                ColumnBuffer::Boolean(old_values)
            },
        }
    }

    /// The finished array of the values.
    pub fn into_array(self) -> (data: arrow_data::ArrayData)
        ensures
            array_values(data) == Some(self.values()),
    {
        match self {
            ColumnBuffer::Utf8(values) => utf8_finish(values),
            ColumnBuffer::UInt64(values) => uint64_finish(values),
            ColumnBuffer::Boolean(values) => boolean_finish(values),
        }
    }

    /// Whether there is room for the text of the first `rows` cells.
    pub fn has_room_for(&self, cells: &Vec<Cell>, rows: usize) -> (fits: bool)
        requires
            rows <= cells.len(),
        ensures
            fits == self.values().has_room(json::cells_view(cells@).take(rows as int)),
    {
        match self {
            ColumnBuffer::Utf8(values) => {
                let ghost texts = cell_texts(json::cells_view(cells@).take(rows as int));
                let mut total = utf8_text_bytes(values);
                let ghost start = total;
                if total > MAX_TEXT_BYTES {
                    return false;
                }
                let mut i: usize = 0;
                assert(texts.take(0) =~= Seq::empty());
                while i < rows
                    invariant
                        i <= rows <= cells.len(),
                        texts == cell_texts(json::cells_view(cells@).take(rows as int)),
                        total == start + text_bytes(texts.take(i as int)),
                        total <= MAX_TEXT_BYTES,
                        self.values() == ColumnView::Utf8(utf8_values(*values)),
                        start == text_bytes(utf8_values(*values)),
                    decreases rows - i,
                {
                    let bytes: usize = cell_str(&cells[i]).as_bytes().len();
                    proof {
                        assert(texts.take(i + 1).drop_last() =~= texts.take(i as int));
                        assert(texts.take(i + 1).last() == submissions::cell_text(
                            cells@[i as int]@,
                        ));
                        lemma_text_bytes_prefix(texts, i + 1);
                    }
                    if bytes > MAX_TEXT_BYTES - total {
                        return false;
                    }
                    total += bytes;
                    i += 1;
                }
                assert(texts.take(i as int) =~= texts);
                true
            },
            _ => true,
        }
    }
}

} // verus!
