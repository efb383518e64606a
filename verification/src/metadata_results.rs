//! What the functions of the columnar export give back, in terms of what they are given.
use std::sync::Arc;

use vstd::prelude::*;

use crate::archive;
use crate::columns::{
    self, string_builder, uint64_array, ColumnBatch, ColumnBuffer, ColumnKind, ColumnView,
    Utf8Column,
};
use crate::construct_submissions_metadata::{
    ConstructSubmissionsMetadataStats, MetadataError, MetadataExport,
};
use crate::json::{Cell, Json};
use crate::metadata_archive::{self, write_submissions_metadata};
use crate::metadata_batch::{self, column_arrays, SubmissionBatchBuffer};
use crate::metadata_columns::{
    self, column_kind, column_names, default_columns, resolve_columns, submissions_schema,
    ColumnError, ColumnSpec,
};
use crate::metadata_laws;
use crate::submissions::{self, field_array, filings_data, ArchiveEntry};

verus! {

/// The kind of a column goes by its name.
pub proof fn law_result_for_a_column(name: &str, kind: ColumnKind)
    requires
        call_ensures(column_kind, (name,), kind),
    ensures
        kind == ColumnKind::UInt64 <==> name@ == "size"@,
        kind == ColumnKind::Boolean <==> name@ == "isXBRL"@ || name@ == "isInlineXBRL"@ || name@
            == "isXBRLNumeric"@,
{
    metadata_laws::law_kinds_of_columns(name@);
}

/// The columns that are asked for come in their order, each with its kind; they are
/// refused only where there are none, or one is empty, is `cik` or stands there twice.
pub proof fn law_result_of_resolving(
    names: Vec<String>,
    result: Result<Vec<ColumnSpec>, ColumnError>,
    i: int,
    j: int,
)
    requires
        call_ensures(resolve_columns, (Some(names),), result),
    ensures
        result matches Ok(specs) ==> {
            &&& names@.len() > 0
            &&& specs@.len() == names@.len()
            &&& 0 <= i < names@.len() ==> {
                &&& specs@[i].name@ == names@[i]@
                &&& specs@[i].kind == metadata_columns::kind_of(names@[i]@)
                &&& names@[i]@.len() > 0
                &&& names@[i]@ != "cik"@
            }
            &&& 0 <= i < j < names@.len() ==> names@[i]@ != names@[j]@
        },
        names@.len() == 0 <==> result is Err && result->Err_0 is NoColumns,
        names@.len() > 0 && (forall|k: int|
            0 <= k < names@.len() ==> (#[trigger] names@[k])@.len() > 0 && names@[k]@ != "cik"@)
            && (forall|k: int, l: int|
            0 <= k < l < names@.len() ==> (#[trigger] names@[k])@ != (#[trigger] names@[l])@)
            ==> result is Ok,
{
    let asked = metadata_columns::requested_names(Some(names));
    assert forall|k: int| 0 <= k < names@.len() implies #[trigger] asked[k] == names@[k]@ by {}
    metadata_columns::law_columns_are_distinct_and_named(asked);
    if let Ok(specs) = result {
        metadata_laws::law_columns_as_asked_for(asked, i);
        let viewed = metadata_columns::specs_view(specs@);
        assert(viewed.len() == specs@.len());
        if 0 <= i < names@.len() {
            assert(viewed[i] == specs@[i]@);
            assert(asked[i].len() > 0 && asked[i] != "cik"@);
            if i < j < names@.len() {
                assert(asked[i] != asked[j]);
            }
        }
    }
    if asked.len() > 0 {
        lemma_columns_are_there(asked);
    }
    if names@.len() > 0 && (forall|k: int|
        0 <= k < names@.len() ==> (#[trigger] names@[k])@.len() > 0 && names@[k]@ != "cik"@) && (
    forall|k: int, l: int|
        0 <= k < l < names@.len() ==> (#[trigger] names@[k])@ != (#[trigger] names@[l])@) {
        assert forall|k: int| 0 <= k < asked.len() implies (#[trigger] asked[k]).len() > 0
            && asked[k] != "cik"@ by {
            assert(names@[k]@.len() > 0);
        }
        assert forall|k: int, l: int| 0 <= k < l < asked.len() implies asked[k] != asked[l] by {
            assert(names@[k]@ != names@[l]@);
        }
    }
}

proof fn lemma_columns_are_there(names: Seq<Seq<char>>)
    requires
        names.len() > 0,
    ensures
        !(metadata_columns::resolved(names) is Err && metadata_columns::resolved(names)->Err_0
            is NoColumns),
    decreases names.len(),
{
    if names.len() > 1 {
        lemma_columns_are_there(names.drop_last());
    } else {
        reveal_with_fuel(metadata_columns::first_fault, 2);
    }
}

/// The default columns can always be had and are sixteen.
pub proof fn law_results_for_defaults(
    result: Result<Vec<ColumnSpec>, ColumnError>,
    names: Vec<String>,
    i: int,
)
    requires
        call_ensures(resolve_columns, (None,), result),
        call_ensures(default_columns, (), names),
    ensures
        result is Ok,
        result->Ok_0@.len() == 16,
        names@.len() == 16,
        0 <= i < 16 ==> result->Ok_0@[i].name@ == names@[i]@,
{
    let asked = metadata_columns::default_names();
    metadata_laws::law_columns_as_asked_for(asked, i);
    let viewed = metadata_columns::specs_view(result->Ok_0@);
    assert(viewed.len() == result->Ok_0@.len());
    let strings = metadata_columns::strings_view(names@);
    assert(strings.len() == names@.len());
    if 0 <= i < 16 {
        assert(viewed[i] == result->Ok_0@[i]@);
        assert(strings[i] == names@[i]@);
    }
}

/// The names are those of the columns, and the schema has the filer's number and then the
/// columns.
pub proof fn law_results_for_a_schema(
    specs: &[ColumnSpec],
    names: Vec<&str>,
    schema: Arc<arrow_schema::Schema>,
    i: int,
)
    requires
        call_ensures(column_names, (specs,), names),
        call_ensures(submissions_schema, (specs,), schema),
    ensures
        names@.len() == specs@.len(),
        columns::schema_fields(*schema).len() == specs@.len() + 1,
        columns::schema_fields(*schema)[0].name == "cik"@,
        columns::schema_fields(*schema)[0].kind == Some(ColumnKind::UInt64),
        0 <= i < specs@.len() ==> {
            &&& names@[i]@ == specs@[i].name@
            &&& columns::schema_fields(*schema)[i + 1].name == specs@[i].name@
            &&& columns::schema_fields(*schema)[i + 1].kind == Some(specs@[i].kind)
            &&& !columns::schema_fields(*schema)[i + 1].nullable
        },
{
    metadata_laws::law_schema_of_columns(metadata_columns::specs_view(specs@), i);
}

/// Numbers go into an array as they are, and a new column of any kind is empty.
pub proof fn law_results_for_arrays(
    values: Vec<u64>,
    data: arrow_data::ArrayData,
    kind: ColumnKind,
    buffer: ColumnBuffer,
    finished: arrow_data::ArrayData,
)
    requires
        call_ensures(uint64_array, (&values,), data),
        call_ensures(ColumnBuffer::new, (kind,), buffer),
        call_ensures(ColumnBuffer::into_array, (buffer,), finished),
    ensures
        columns::array_values(data) == Some(ColumnView::UInt64(values@)),
        buffer.values().kind() == kind,
        buffer.values().len() == 0,
        columns::array_values(finished) == Some(buffer.values()),
{
}

/// A cell goes behind the values of a column; a column that is taken is handed over whole
/// and leaves one of its kind without values.
pub proof fn law_results_of_filling_a_column(cell: Cell, taken: ColumnBuffer)
    ensures
        forall|buffer: &mut ColumnBuffer|
            #[trigger] call_ensures(ColumnBuffer::push, (buffer, &cell), ()) ==> {
                &&& final(buffer).values().kind() == buffer.values().kind()
                &&& final(buffer).values().len() == buffer.values().len() + 1
                &&& final(buffer).values() == buffer.values().append(seq![cell@])
            },
        forall|buffer: &mut ColumnBuffer|
            #[trigger] call_ensures(ColumnBuffer::take, (buffer,), taken) ==> {
                &&& taken.values() == buffer.values()
                &&& final(buffer).values().kind() == buffer.values().kind()
                &&& final(buffer).values().len() == 0
            },
{
}

/// A row of cells goes behind the values of a column, as many of them as are asked for.
pub proof fn law_results_of_filling_a_column_with_many(cells: Vec<Cell>, rows: usize)
    requires
        rows <= cells@.len(),
    ensures
        forall|buffer: &mut ColumnBuffer|
            #[trigger] call_ensures(ColumnBuffer::push_all, (buffer, &cells, rows), ()) ==> {
                &&& final(buffer).values().kind() == buffer.values().kind()
                &&& final(buffer).values().len() == buffer.values().len() + rows
                &&& final(buffer).values() == buffer.values().append(
                    crate::json::cells_view(cells@.take(rows as int)),
                )
            },
{
    assert(crate::json::cells_view(cells@).take(rows as int) =~= crate::json::cells_view(
        cells@.take(rows as int),
    ));
}

/// A new batch holds nothing; it is empty exactly where it holds no filing.
pub proof fn law_results_for_batches(
    specs: &[ColumnSpec],
    buffer: SubmissionBatchBuffer,
    any: SubmissionBatchBuffer,
    rows: usize,
    empty: bool,
)
    requires
        call_ensures(SubmissionBatchBuffer::new, (specs,), buffer),
        call_ensures(SubmissionBatchBuffer::len, (&any,), rows),
        call_ensures(SubmissionBatchBuffer::is_empty, (&any,), empty),
    ensures
        buffer.ciks@.len() == 0,
        buffer.columns@.len() == specs@.len(),
        buffer.files == 0,
        buffer.json_bytes == 0,
        rows == any.ciks@.len(),
        empty <==> any.ciks@.len() == 0,
{
    assert(buffer@.columns.len() == buffer.columns@.len());
}

/// A batch that is taken is handed over whole and leaves one with the same columns and
/// nothing in them.
pub proof fn law_results_of_taking_a_batch(taken: SubmissionBatchBuffer)
    ensures
        forall|buffer: &mut SubmissionBatchBuffer|
            #[trigger] call_ensures(SubmissionBatchBuffer::take, (buffer,), taken) ==> {
                &&& taken.ciks@ == buffer.ciks@
                &&& taken@.columns == buffer@.columns
                &&& taken.files == buffer.files
                &&& taken.json_bytes == buffer.json_bytes
                &&& final(buffer).ciks@.len() == 0
                &&& final(buffer).files == 0
                &&& final(buffer).json_bytes == 0
                &&& final(buffer)@.columns.len() == buffer@.columns.len()
            },
{
}

/// The filings of a file are appended as many as they are, with the filer's number for
/// each and the cells of each column.
pub proof fn law_results_of_appending_rows(
    cik: u64,
    rows: usize,
    arrays: Vec<&Vec<Cell>>,
    json_bytes: usize,
)
    ensures
        forall|buffer: &mut SubmissionBatchBuffer|
            #[trigger] call_ensures(
                SubmissionBatchBuffer::append_rows,
                (buffer, cik, rows, &arrays, json_bytes),
                (),
            ) ==> {
                &&& final(buffer).ciks@ == buffer.ciks@ + Seq::new(rows as nat, |i: int| cik)
                &&& final(buffer).files == buffer.files + 1
                &&& final(buffer).json_bytes == buffer.json_bytes + json_bytes
                &&& final(buffer).columns@.len() == buffer.columns@.len()
            },
{
    assert forall|buffer: &mut SubmissionBatchBuffer|
        #[trigger] call_ensures(
            SubmissionBatchBuffer::append_rows,
            (buffer, cik, rows, &arrays, json_bytes),
            (),
        ) implies {
        &&& final(buffer).ciks@ == buffer.ciks@ + Seq::new(rows as nat, |i: int| cik)
        &&& final(buffer).files == buffer.files + 1
        &&& final(buffer).json_bytes == buffer.json_bytes + json_bytes
        &&& final(buffer).columns@.len() == buffer.columns@.len()
    } by {
        assert(final(buffer)@.ciks =~= buffer@.ciks + Seq::new(rows as nat, |i: int| cik));
        assert(final(buffer)@.columns.len() == buffer@.columns.len());
    }
}

/// An export begins with nothing counted.
pub proof fn law_result_of_beginning_an_export(specs: Vec<ColumnSpec>, export: MetadataExport)
    requires
        call_ensures(MetadataExport::new, (specs,), export),
    ensures
        export@.columns == metadata_columns::specs_view(specs@),
        export.stats.files_processed == 0,
        export.stats.files_skipped == 0,
        export.stats.filings_written == 0,
        export.stats.batches_written == 0,
        export.buffer.ciks@.len() == 0,
{
}

/// What is flushed is all that the buffer holds, where it holds any filing; nothing is
/// counted before a batch has been written, and then one more.
pub proof fn law_results_of_flushing(batch: Option<SubmissionBatchBuffer>)
    ensures
        forall|export: &mut MetadataExport|
            #[trigger] call_ensures(MetadataExport::flush_batch, (export,), batch) ==> {
                &&& batch is None <==> export.buffer.ciks@.len() == 0
                &&& batch is Some ==> batch->0@ == export.buffer@
                &&& final(export).buffer.ciks@.len() == 0
                &&& final(export).stats.files_processed == export.stats.files_processed
                &&& final(export).stats.filings_written == export.stats.filings_written
                &&& final(export).stats.batches_written == export.stats.batches_written
            },
        forall|export: &mut MetadataExport|
            #[trigger] call_ensures(MetadataExport::batch_written, (export,), ()) ==> {
                &&& final(export).stats.batches_written == export.stats.batches_written + 1
                &&& final(export).stats.files_processed == export.stats.files_processed
                &&& final(export).stats.filings_written == export.stats.filings_written
                &&& final(export).buffer@ == export.buffer@
            },
{
}

/// An entry is added as a whole or not at all. A batch is handed out only where the
/// buffer has come to hold a hundred thousand filings or more, and is all of it.
pub proof fn law_results_of_adding_an_entry(
    entry: ArchiveEntry,
    added: Result<Option<SubmissionBatchBuffer>, MetadataError>,
)
    ensures
        forall|export: &mut MetadataExport|
            #[trigger] call_ensures(MetadataExport::add_entry, (export, entry), added)
                ==> match added {
                Err(_) => final(export)@ == export@,
                Ok(None) => {
                    &&& final(export)@.buffer.ciks.len() < 100_000 || final(export)@ == export@
                    &&& export@.buffer.ciks.is_prefix_of(final(export)@.buffer.ciks)
                    &&& final(export)@.filings_written - export@.filings_written
                        == final(export)@.buffer.ciks.len() - export@.buffer.ciks.len()
                },
                Ok(Some(batch)) => {
                    &&& batch@.ciks.len() >= 100_000
                    &&& export@.buffer.ciks.is_prefix_of(batch@.ciks)
                    &&& final(export)@.buffer.ciks.len() == 0
                    &&& final(export)@.filings_written - export@.filings_written
                        == batch@.ciks.len() - export@.buffer.ciks.len()
                    &&& final(export)@.batches_written == export@.batches_written
                },
            },
{
    assert forall|export: &mut MetadataExport|
        #[trigger] call_ensures(MetadataExport::add_entry, (export, entry), added) implies match added {
        Err(_) => final(export)@ == export@,
        Ok(None) => {
            &&& final(export)@.buffer.ciks.len() < 100_000 || final(export)@ == export@
            &&& export@.buffer.ciks.is_prefix_of(final(export)@.buffer.ciks)
            &&& final(export)@.filings_written - export@.filings_written
                == final(export)@.buffer.ciks.len() - export@.buffer.ciks.len()
        },
        Ok(Some(batch)) => {
            &&& batch@.ciks.len() >= 100_000
            &&& export@.buffer.ciks.is_prefix_of(batch@.ciks)
            &&& final(export)@.buffer.ciks.len() == 0
            &&& final(export)@.filings_written - export@.filings_written == batch@.ciks.len()
                - export@.buffer.ciks.len()
            &&& final(export)@.batches_written == export@.batches_written
        },
    } by {
        let ciks = export@.buffer.ciks;
        if let Ok(None) = added {
            assert(ciks =~= final(export)@.buffer.ciks.subrange(0, ciks.len() as int));
        } else if let Ok(Some(batch)) = added {
            assert(ciks =~= batch@.ciks.subrange(0, ciks.len() as int));
        }
    }
}

/// The arrays of a document are those of the columns, in their order, and each has a cell
/// for every accession number.
pub proof fn law_result_for_arrays_of_a_document(
    filename: &str,
    cik: u64,
    data: &Json,
    specs: &[ColumnSpec],
    rows: usize,
    arrays: Vec<&Vec<Cell>>,
    filings: &Json,
    accessions: &Vec<Cell>,
    field: &str,
    cells: &Vec<Cell>,
    k: int,
    i: int,
)
    requires
        call_ensures(column_arrays, (filename, cik, data, specs), Ok((rows, arrays))),
        call_ensures(filings_data, (filename, data), Ok(filings)),
        call_ensures(field_array, (filings, "accessionNumber"), Ok(accessions)),
        0 <= k < specs@.len(),
        field@ == specs@[k].name@,
        call_ensures(field_array, (filings, field), Ok(cells)),
    ensures
        rows == accessions@.len(),
        arrays@.len() == specs@.len(),
        rows <= cells@.len(),
        rows <= arrays@[k]@.len(),
        0 <= i < rows ==> arrays@[k]@[i]@ == cells@[i]@,
{
    let names = metadata_columns::names_of(metadata_columns::specs_view(specs@));
    let found = metadata_batch::rows_view(cik, rows, arrays@);
    assert(names[k] == field@);
    let all = crate::json::cells_view(cells@);
    let numbers = crate::json::cells_view(accessions@);
    assert(numbers.len() == accessions@.len());
    assert(all.len() == cells@.len());
    assert(submissions::field_cells(filings@, names[k])->0.len() >= numbers.len());
    assert(found.cells[k] == all.take(numbers.len() as int));
    assert(found.cells[k] == crate::json::cells_view(arrays@[k]@).take(rows as int));
    if 0 <= i < rows {
        assert(all.take(numbers.len() as int)[i] == cells@[i]@);
        assert(crate::json::cells_view(arrays@[k]@).take(rows as int)[i] == arrays@[k]@[i]@);
    }
}

/// A finished batch has the schema that it is given and all that was gathered.
pub proof fn law_result_of_finishing_a_batch(
    buffer: SubmissionBatchBuffer,
    schema: Arc<arrow_schema::Schema>,
    batch: ColumnBatch,
    k: int,
)
    requires
        call_ensures(SubmissionBatchBuffer::into_record_batch, (buffer, schema), Ok(batch)),
    ensures
        columns::batch_fields(batch) == columns::schema_fields(*schema),
        columns::batch_columns(batch).len() == buffer.columns@.len() + 1,
        columns::batch_columns(batch)[0] == Some(ColumnView::UInt64(buffer.ciks@)),
        0 <= k < buffer.columns@.len() ==> columns::batch_columns(batch)[k + 1] == Some(
            buffer.columns@[k].values(),
        ),
{
    metadata_laws::law_arrays_of_a_batch(buffer@, k);
    assert(buffer@.columns.len() == buffer.columns@.len());
}

/// There is room for cells where the texts that they would give together with those that
/// are there take no more bytes than a signed 32-bit offset reaches.
pub proof fn law_result_of_asking_for_room(
    buffer: ColumnBuffer,
    cells: Vec<Cell>,
    rows: usize,
    fits: bool,
    column: Utf8Column,
    fresh: Utf8Column,
)
    requires
        rows <= cells@.len(),
        call_ensures(ColumnBuffer::has_room_for, (&buffer, &cells, rows), fits),
        call_ensures(string_builder, (), fresh),
    ensures
        !(buffer is Utf8) ==> fits,
        buffer == ColumnBuffer::Utf8(column) ==> (fits <==> columns::text_bytes(
            columns::utf8_values(column) + columns::cell_texts(
                crate::json::cells_view(cells@).take(rows as int),
            ),
        ) <= 2_147_483_647),
        columns::utf8_values(fresh).len() == 0,
{
    let row = crate::json::cells_view(cells@).take(rows as int);
    crate::column_laws::law_room_in_a_column(buffer.values(), row);
}

/// The filings of a document or of a file are appended all together, or nothing changes
/// and the error is told.
pub proof fn law_results_of_appending_filings(
    filename: &str,
    cik: u64,
    data: Json,
    json_bytes: usize,
    bytes: &[u8],
    rows: Result<usize, MetadataError>,
    added: Result<usize, MetadataError>,
)
    ensures
        forall|export: &mut MetadataExport|
            #[trigger] call_ensures(
                MetadataExport::append_document,
                (export, filename, cik, &data, json_bytes),
                rows,
            ) ==> match rows {
                Ok(rows) => {
                    &&& final(export).buffer.ciks@ == export.buffer.ciks@ + Seq::new(
                        rows as nat,
                        |i: int| cik,
                    )
                    &&& final(export).stats.filings_written == export.stats.filings_written + rows
                    &&& final(export).stats.files_processed == export.stats.files_processed + 1
                    &&& final(export).buffer.json_bytes == export.buffer.json_bytes + json_bytes
                },
                Err(_) => final(export)@ == export@,
            },
        forall|export: &mut MetadataExport|
            #[trigger] call_ensures(
                MetadataExport::append_submission_bytes,
                (export, filename, bytes),
                added,
            ) ==> match added {
                Ok(rows) => {
                    &&& submissions::cik_of(filename@) is Ok
                    &&& final(export).buffer.ciks@ == export.buffer.ciks@ + Seq::new(
                        rows as nat,
                        |i: int| submissions::cik_of(filename@)->Ok_0,
                    )
                    &&& final(export).stats.filings_written == export.stats.filings_written + rows
                    &&& final(export).stats.files_processed == export.stats.files_processed + 1
                    &&& final(export).buffer.json_bytes == export.buffer.json_bytes + bytes@.len()
                },
                Err(_) => final(export)@ == export@,
            },
{
    assert forall|export: &mut MetadataExport|
        #[trigger] call_ensures(
            MetadataExport::append_document,
            (export, filename, cik, &data, json_bytes),
            rows,
        ) && rows is Ok implies final(export).buffer.ciks@ == export.buffer.ciks@ + Seq::new(
        rows->Ok_0 as nat,
        |i: int| cik,
    ) by {
        assert(final(export)@.buffer.ciks =~= export@.buffer.ciks + Seq::new(
            rows->Ok_0 as nat,
            |i: int| cik,
        ));
    }
    assert forall|export: &mut MetadataExport|
        #[trigger] call_ensures(
            MetadataExport::append_submission_bytes,
            (export, filename, bytes),
            added,
        ) && added is Ok implies submissions::cik_of(filename@) is Ok && final(export).buffer.ciks@
        == export.buffer.ciks@ + Seq::new(
        added->Ok_0 as nat,
        |i: int| submissions::cik_of(filename@)->Ok_0,
    ) by {
        assert(final(export)@.buffer.ciks =~= export@.buffer.ciks + Seq::new(
            added->Ok_0 as nat,
            |i: int| submissions::cik_of(filename@)->Ok_0,
        ));
    }
}

/// The columnar export of entries, and that of an archive, is that of its run.
pub proof fn law_results_of_exporting_columns(
    entries: Vec<ArchiveEntry>,
    specs: Vec<ColumnSpec>,
    export: Result<(Vec<ColumnBatch>, ConstructSubmissionsMetadataStats), (usize, MetadataError)>,
    bytes: Vec<u8>,
    whole: Result<
        Result<(Vec<ColumnBatch>, ConstructSubmissionsMetadataStats), (usize, MetadataError)>,
        zip::result::ZipError,
    >,
    i: int,
)
    requires
        call_ensures(metadata_archive::write_entries, (entries, specs), export),
        call_ensures(write_submissions_metadata, (bytes, specs), whole),
    ensures
        ({
            let all = submissions::entries_view(entries@);
            let run = metadata_archive::run(metadata_columns::specs_view(specs@), all);
            &&& export is Ok <==> run is Ok
            &&& export is Err ==> {
                &&& (export->Err_0).0 == (run->Err_0).0
                &&& (export->Err_0).1@ == (run->Err_0).1
                &&& (export->Err_0).0 < entries@.len()
            }
            &&& export is Ok ==> {
                &&& (export->Ok_0).0@.len() == run->Ok_0.finished().batches.len()
                &&& 0 <= i < (export->Ok_0).0@.len() ==> columns::batch_columns(
                    (export->Ok_0).0@[i],
                ) == metadata_batch::batch_arrays(run->Ok_0.finished().batches[i])
                &&& (export->Ok_0).1.filings_written == metadata_archive::filings_in(
                    run->Ok_0.finished().batches,
                )
                &&& (export->Ok_0).1.batches_written == (export->Ok_0).0@.len()
                &&& (export->Ok_0).1.files_processed == metadata_archive::files_in(all)
                &&& (export->Ok_0).1.files_skipped == 0
            }
            &&& whole is Ok <==> archive::zip_entries(bytes@) is Ok
            &&& whole is Ok && archive::zip_entries(bytes@)->Ok_0 == all ==> {
                &&& whole->Ok_0 is Ok <==> export is Ok
                &&& export is Ok ==> {
                    &&& (whole->Ok_0->Ok_0).1 == (export->Ok_0).1
                    &&& (whole->Ok_0->Ok_0).0@.len() == (export->Ok_0).0@.len()
                }
                &&& export is Err ==> (whole->Ok_0->Err_0).0 == (export->Err_0).0
            }
        }),
{
    let all = submissions::entries_view(entries@);
    let viewed = metadata_columns::specs_view(specs@);
    if export is Ok {
        metadata_archive::law_counts_are_those_of_the_batches(viewed, all);
    } else {
        lemma_errors_have_a_place(viewed, all);
    }
}

proof fn lemma_errors_have_a_place(
    specs: Seq<metadata_columns::ColumnSpecView>,
    entries: Seq<submissions::EntryView>,
)
    requires
        metadata_archive::run(specs, entries) is Err,
    ensures
        (metadata_archive::run(specs, entries)->Err_0).0 < entries.len(),
    decreases entries.len(),
{
    if entries.len() > 0 && metadata_archive::run(specs, entries.drop_last()) is Err {
        lemma_errors_have_a_place(specs, entries.drop_last());
    }
}

} // verus!
