//! What holds of cells as numbers and as truth values, and of the columns made of them.
use vstd::prelude::*;

use crate::columns::{self, ColumnBuffer, ColumnKind, ColumnView, FieldView};
use crate::double;
use crate::json::{Cell, CellView, JsonNumber, NumberView};
use crate::submissions;
use crate::text;
use crate::text_laws;

verus! {

/// A number that fits in 64 bits without a sign is kept as it is, however large.
pub proof fn law_numbers_are_kept(number: NumberView, n: u64)
    ensures
        number.unsigned == Some(n) ==> columns::cell_u64(CellView::Number(number)) == n,
        number.unsigned is None && number.signed is Some && number.signed->0 == n
            ==> columns::cell_u64(CellView::Number(number)) == n,
{
}

/// A text that writes a number in decimal, with leading zeros or a plus sign or without,
/// becomes that number, as long as it fits. Any other text becomes zero.
pub proof fn law_written_numbers_are_kept(n: u64, digits: Seq<char>, other: Seq<char>)
    requires
        digits.len() > 0,
        text_laws::only_digits(digits),
        text::digits_value(digits) == n,
        !text_laws::only_digits(other),
        other.len() > 0 && other[0] == '+' ==> !text_laws::only_digits(other.skip(1)),
    ensures
        columns::cell_u64(CellView::Text(text::decimal(n as nat))) == n,
        columns::cell_u64(CellView::Text(digits)) == n,
        columns::cell_u64(CellView::Text(seq!['+'] + digits)) == n,
        columns::cell_u64(CellView::Text(other)) == 0,
{
    text::law_decimal_reads_back(n);
    text_laws::law_digits_are_read(digits);
    if text::read_u64(other) is Some {
        text_laws::law_only_digits_are_read(other);
    }
}

/// An empty text, a sign alone and a number that does not fit become zero.
pub proof fn law_texts_without_a_number(digits: Seq<char>)
    requires
        digits.len() > 0,
        text_laws::only_digits(digits),
        text::digits_value(digits) > 0xffff_ffff_ffff_ffff,
    ensures
        columns::cell_u64(CellView::Text(digits)) == 0,
        columns::cell_u64(CellView::Text(seq!['+'] + digits)) == 0,
        columns::cell_u64(CellView::Text(Seq::empty())) == 0,
        columns::cell_u64(CellView::Text(seq!['+'])) == 0,
{
    text_laws::law_digits_are_read(digits);
}

/// A number with a sign or a fraction is truncated, a truth value is one or zero, and
/// what holds no number is zero.
pub proof fn law_other_cells_as_numbers(number: NumberView, nested: Seq<char>)
    ensures
        columns::cell_u64(CellView::Bool(true)) == 1,
        columns::cell_u64(CellView::Bool(false)) == 0,
        columns::cell_u64(CellView::Null) == 0,
        columns::cell_u64(CellView::Nested(nested)) == 0,
        number.unsigned is None && (number.signed is None || number.signed->0 < 0) ==> {
            &&& number.float_bits is Some ==> columns::cell_u64(CellView::Number(number))
                == double::truncated(number.float_bits->0)
            &&& number.float_bits is None ==> columns::cell_u64(CellView::Number(number)) == 0
        },
{
}

/// A number is true unless it is zero, and a truth value is what it is.
pub proof fn law_numbers_as_truth_values(number: NumberView)
    ensures
        columns::cell_bool(CellView::Bool(true)),
        !columns::cell_bool(CellView::Bool(false)),
        number.signed is Some ==> (columns::cell_bool(CellView::Number(number)) <==> number.signed
            != Some(0i64)),
        number.signed is None && number.unsigned is Some ==> (columns::cell_bool(
            CellView::Number(number),
        ) <==> number.unsigned != Some(0u64)),
        number.signed is None && number.unsigned is None ==> (columns::cell_bool(
            CellView::Number(number),
        ) <==> number.float_bits is Some && number.float_bits != Some(0u64) && number.float_bits
            != Some(0x8000_0000_0000_0000u64)),
{
    if number.float_bits is Some {
        law_zero_has_two_forms(number.float_bits->0);
    }
}

/// Of the texts, `1`, `true`, `TRUE` and `True` are true, and no other; null and what is
/// nested are not.
pub proof fn law_texts_as_truth_values(s: Seq<char>, nested: Seq<char>)
    ensures
        columns::cell_bool(CellView::Text(s)) <==> s == seq!['1'] || s == seq![
            't',
            'r',
            'u',
            'e',
        ] || s == seq!['T', 'R', 'U', 'E'] || s == seq!['T', 'r', 'u', 'e'],
        !columns::cell_bool(CellView::Null),
        !columns::cell_bool(CellView::Nested(nested)),
{
    reveal_strlit("1");
    reveal_strlit("true");
    reveal_strlit("TRUE");
    reveal_strlit("True");
    assert("1"@ =~= seq!['1']);
    assert("true"@ =~= seq!['t', 'r', 'u', 'e']);
    assert("TRUE"@ =~= seq!['T', 'R', 'U', 'E']);
    assert("True"@ =~= seq!['T', 'r', 'u', 'e']);
}

/// The same of the cells themselves.
pub proof fn law_cells_as_values(number: JsonNumber, n: u64, s: String)
    ensures
        number.unsigned == Some(n) ==> columns::cell_u64(Cell::Number(number)@) == n,
        s@ == text::decimal(n as nat) ==> columns::cell_u64(Cell::Text(s)@) == n,
        columns::cell_u64(Cell::Bool(true)@) == 1,
        columns::cell_u64(Cell::Bool(false)@) == 0,
        columns::cell_u64(Cell::Null@) == 0,
        columns::cell_u64(Cell::Nested(s)@) == 0,
        columns::cell_bool(Cell::Bool(true)@),
        !columns::cell_bool(Cell::Bool(false)@),
        !columns::cell_bool(Cell::Null@),
        number.signed is Some ==> columns::cell_bool(Cell::Number(number)@) == (number.signed->0
            != 0),
{
    text::law_decimal_reads_back(n);
}

/// Zero has two forms, which differ in the sign.
pub proof fn law_zero_has_two_forms(bits: u64)
    ensures
        double::is_zero(bits) <==> bits == 0 || bits == 0x8000_0000_0000_0000,
{
}

/// A double with that sign, exponent and fraction is truncated to the whole number below
/// it, or to the largest where that does not fit. A negative one and one below one give
/// zero, as does what is no number.
pub proof fn law_doubles_are_truncated(negative: bool, exponent: u64, fraction: u64)
    requires
        exponent < 0x800,
        fraction < 0x10_0000_0000_0000,
    ensures
        ({
            let bits = ((if negative {
                0x8000_0000_0000_0000
            } else {
                0int
            }) + exponent * 0x10_0000_0000_0000 + fraction) as u64;
            let value = double::truncated(bits);
            &&& negative ==> value == 0
            &&& exponent < 1023 ==> value == 0
            &&& exponent == 0x7ff && fraction != 0 ==> value == 0
            &&& exponent == 0x7ff && fraction == 0 && !negative ==> value
                == 0xffff_ffff_ffff_ffff
            &&& !negative && 1023 <= exponent < 0x7ff ==> {
                let scaled = (0x10_0000_0000_0000 + fraction) * vstd::arithmetic::power2::pow2(
                    (exponent - 1023) as nat,
                );
                if scaled >= 0x10_0000_0000_0000 * 0x1_0000_0000_0000_0000 {
                    value == 0xffff_ffff_ffff_ffff
                } else {
                    value * 0x10_0000_0000_0000 <= scaled < (value + 1) * 0x10_0000_0000_0000
                }
            }
        }),
{
    let high: int = if negative {
        0x8000_0000_0000_0000
    } else {
        0
    };
    let whole = high + exponent * 0x10_0000_0000_0000 + fraction;
    let bits = whole as u64;
    assert(bits == whole);
    assert(double::fraction(bits) == fraction);
    assert(double::exponent(bits) == exponent);
    assert(double::is_negative(bits) == negative);
}

/// Every pattern of bits has a sign, an exponent and a fraction.
pub proof fn law_doubles_have_parts(bits: u64)
    ensures
        bits == (if double::is_negative(bits) {
            0x8000_0000_0000_0000
        } else {
            0int
        }) + double::exponent(bits) * 0x10_0000_0000_0000 + double::fraction(bits),
        double::exponent(bits) < 0x800,
        double::fraction(bits) < 0x10_0000_0000_0000,
{
}

/// Cells are appended one by one behind the values of a column, each as what the column
/// holds, and none of them is left out.
pub proof fn law_cells_are_appended(column: ColumnView, cells: Seq<CellView>, i: int)
    ensures
        column.append(cells).kind() == column.kind(),
        column.append(cells).len() == column.len() + cells.len(),
        match (column, column.append(cells)) {
            (ColumnView::Utf8(old_values), ColumnView::Utf8(values)) => {
                &&& 0 <= i < old_values.len() ==> values[i] == old_values[i]
                &&& 0 <= i < cells.len() ==> values[old_values.len() + i]
                    == submissions::cell_text(cells[i])
            },
            (ColumnView::UInt64(old_values), ColumnView::UInt64(values)) => {
                &&& 0 <= i < old_values.len() ==> values[i] == old_values[i]
                &&& 0 <= i < cells.len() ==> values[old_values.len() + i] == columns::cell_u64(
                    cells[i],
                )
            },
            (ColumnView::Boolean(old_values), ColumnView::Boolean(values)) => {
                &&& 0 <= i < old_values.len() ==> values[i] == old_values[i]
                &&& 0 <= i < cells.len() ==> values[old_values.len() + i] == columns::cell_bool(
                    cells[i],
                )
            },
            _ => false,
        },
{
}

/// Rows of cells that are appended one after the other give the same column as both
/// together.
pub proof fn law_appending_can_be_parted(
    column: ColumnView,
    first: Seq<CellView>,
    second: Seq<CellView>,
)
    ensures
        column.append(first).append(second) == column.append(first + second),
        column.append(Seq::empty()) == column,
{
    columns::lemma_append_nothing(column);
    let both = first + second;
    match column {
        ColumnView::Utf8(values) => {
            assert(values + columns::cell_texts(first) + columns::cell_texts(second) =~= values
                + columns::cell_texts(both));
        },
        ColumnView::UInt64(values) => {
            assert(values + Seq::new(first.len(), |k: int| columns::cell_u64(first[k]))
                + Seq::new(second.len(), |k: int| columns::cell_u64(second[k])) =~= values
                + Seq::new(both.len(), |k: int| columns::cell_u64(both[k])));
        },
        ColumnView::Boolean(values) => {
            assert(values + Seq::new(first.len(), |k: int| columns::cell_bool(first[k]))
                + Seq::new(second.len(), |k: int| columns::cell_bool(second[k])) =~= values
                + Seq::new(both.len(), |k: int| columns::cell_bool(both[k])));
        },
    }
}

/// The bytes of texts are those of each of them.
pub proof fn law_bytes_add_up(first: Seq<Seq<char>>, second: Seq<Seq<char>>, s: Seq<char>)
    ensures
        columns::text_bytes(first + second) == columns::text_bytes(first) + columns::text_bytes(
            second,
        ),
        columns::text_bytes(seq![s]) == vstd::utf8::encode_utf8(s).len(),
        columns::text_bytes(Seq::empty()) == 0,
{
    columns::lemma_text_bytes_concat(first, second);
    reveal_with_fuel(columns::text_bytes, 2);
    assert(seq![s].drop_last() =~= Seq::<Seq<char>>::empty());
}

/// A column has room for cells unless it holds texts and would take more than the bytes
/// that a signed 32-bit offset reaches.
pub proof fn law_room_in_a_column(column: ColumnView, cells: Seq<CellView>)
    ensures
        column.has_room(cells) <==> match column.append(cells) {
            ColumnView::Utf8(values) => columns::text_bytes(values) <= 2_147_483_647,
            _ => true,
        },
{
    if let ColumnView::Utf8(values) = column {
        columns::lemma_text_bytes_concat(values, columns::cell_texts(cells));
    }
}

/// The texts of cells are those of each of them.
pub proof fn law_texts_of_cells(cells: Seq<CellView>, i: int)
    ensures
        columns::cell_texts(cells).len() == cells.len(),
        0 <= i < cells.len() ==> columns::cell_texts(cells)[i] == submissions::cell_text(cells[i]),
{
}

/// A column is of the kind of its values and as long as they are many; a new one is of
/// the kind that is asked for and has none.
pub proof fn law_columns_have_a_kind(
    texts: Seq<Seq<char>>,
    numbers: Seq<u64>,
    truths: Seq<bool>,
    kind: ColumnKind,
)
    ensures
        ColumnView::Utf8(texts).kind() == ColumnKind::Utf8,
        ColumnView::UInt64(numbers).kind() == ColumnKind::UInt64,
        ColumnView::Boolean(truths).kind() == ColumnKind::Boolean,
        ColumnView::Utf8(texts).len() == texts.len(),
        ColumnView::UInt64(numbers).len() == numbers.len(),
        ColumnView::Boolean(truths).len() == truths.len(),
        columns::empty_column(kind).kind() == kind,
        columns::empty_column(kind).len() == 0,
{
}

/// A batch fits its schema where it has a column of the same kind for every field, at
/// least one of them, and all are of one length.
pub proof fn law_batches_fit(
    fields: Seq<FieldView>,
    batch: Seq<Option<ColumnView>>,
    j: int,
    k: int,
)
    ensures
        columns::batch_fits(fields, batch) ==> {
            &&& batch.len() == fields.len()
            &&& batch.len() > 0
            &&& 0 <= k < batch.len() ==> batch[k] is Some && fields[k].kind == Some(
                batch[k]->0.kind(),
            )
            &&& 0 <= j < batch.len() && 0 <= k < batch.len() ==> batch[j]->0.len()
                == batch[k]->0.len()
        },
        batch.len() == fields.len() && batch.len() > 0 && (forall|m: int|
            0 <= m < batch.len() ==> (#[trigger] batch[m]) is Some && fields[m].kind == Some(
                batch[m]->0.kind(),
            ) && batch[m]->0.len() == batch[0]->0.len()) ==> columns::batch_fits(fields, batch),
{
    if columns::batch_fits(fields, batch) && 0 <= j < batch.len() && 0 <= k < batch.len() {
        assert(batch[j] is Some);
        assert(batch[k] is Some);
    }
}

/// The values of arrays are those of each of them.
pub proof fn law_values_of_arrays(arrays: Seq<arrow_data::ArrayData>, k: int)
    ensures
        columns::arrays_values(arrays).len() == arrays.len(),
        0 <= k < arrays.len() ==> columns::arrays_values(arrays)[k] == columns::array_values(
            arrays[k],
        ),
{
}

/// A buffer holds what its builder was given.
pub proof fn law_values_of_a_buffer(buffer: ColumnBuffer)
    ensures
        match buffer {
            ColumnBuffer::Utf8(column) => buffer.values() == ColumnView::Utf8(
                columns::utf8_values(column),
            ),
            ColumnBuffer::UInt64(column) => buffer.values() == ColumnView::UInt64(
                columns::uint64_values(column),
            ),
            ColumnBuffer::Boolean(builder) => buffer.values() == ColumnView::Boolean(
                columns::boolean_values(builder),
            ),
        },
{
}

/// A batch is meant to hold a hundred thousand rows, with thirty-two bytes of text in
/// each.
pub proof fn law_sizes()
    ensures
        columns::BATCH_TARGET_ROWS == 100_000,
        columns::STRING_VALUE_BYTES_PER_ROW == 32,
        columns::MAX_TEXT_BYTES == 2_147_483_647,
        crate::accessions::MAX_ACCESSIONS == 50_000,
        crate::monitor::NANOS_PER_MILLI == 1_000_000,
        crate::rss::DATE_BYTES == 10,
{
}

} // verus!
