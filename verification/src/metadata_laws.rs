//! What holds of the columnar export: its columns, its batches and its run over an
//! archive.
use vstd::prelude::*;

use crate::archive;
use crate::columns::{self, ColumnBatch, ColumnKind, ColumnView};
use crate::construct_submissions_metadata::{
    self, ConstructSubmissionsMetadataStats, ExportView, MetadataError, MetadataErrorView,
    MetadataExport,
};
use crate::document_laws;
use crate::json::{self, Cell, CellView, JsonView};
use crate::metadata_archive::{self, RunView};
use crate::metadata_batch::{self, BatchView, FileRows, SubmissionBatchBuffer};
use crate::metadata_columns::{
    self, ColumnError, ColumnErrorView, ColumnSpec, ColumnSpecView,
};
use crate::submissions::{self, EntryView, SubmissionErrorView};

verus! {

/// Only the size is a number and only the three marks of XBRL are truth values; every
/// other column holds text.
pub proof fn law_kinds_of_columns(name: Seq<char>)
    ensures
        metadata_columns::kind_of(name) == ColumnKind::UInt64 <==> name == "size"@,
        metadata_columns::kind_of(name) == ColumnKind::Boolean <==> name == "isXBRL"@ || name
            == "isInlineXBRL"@ || name == "isXBRLNumeric"@,
        metadata_columns::kind_of(name) == ColumnKind::Utf8 <==> name != "size"@ && name
            != "isXBRL"@ && name != "isInlineXBRL"@ && name != "isXBRLNumeric"@,
{
    reveal_strlit("size");
    reveal_strlit("isXBRL");
    reveal_strlit("isInlineXBRL");
    reveal_strlit("isXBRLNumeric");
    assert("size"@.len() == 4);
    assert("isXBRL"@.len() == 6);
    assert("isInlineXBRL"@.len() == 12);
    assert("isXBRLNumeric"@.len() == 13);
}

/// The columns are those that were asked for, in their order, each with its kind.
pub proof fn law_columns_as_asked_for(names: Seq<Seq<char>>, i: int)
    requires
        metadata_columns::resolved(names) is Ok,
    ensures
        ({
            let found = metadata_columns::resolved(names)->Ok_0;
            &&& found.len() == names.len()
            &&& 0 <= i < names.len() ==> found[i].name == names[i] && found[i].kind
                == metadata_columns::kind_of(names[i])
            &&& metadata_columns::names_of(found) == names
        }),
{
    let found = metadata_columns::resolved(names)->Ok_0;
    assert(metadata_columns::names_of(found) =~= names);
}

/// The columns of names are as many, in their order, each with its kind.
pub proof fn law_columns_of_names(names: Seq<Seq<char>>, i: int)
    ensures
        metadata_columns::columns_named(names).len() == names.len(),
        0 <= i < names.len() ==> metadata_columns::columns_named(names)[i].name == names[i]
            && metadata_columns::columns_named(names)[i].kind == metadata_columns::kind_of(
            names[i],
        ),
{
}

/// Of a list that cannot be had, the first name that is wrong is told of: one that is
/// empty, one that is `cik`, or one that stands before it too. Without names there are no
/// columns.
pub proof fn law_first_wrong_column(
    front: Seq<Seq<char>>,
    wrong: Seq<char>,
    back: Seq<Seq<char>>,
)
    requires
        front.no_duplicates(),
        forall|i: int|
            0 <= i < front.len() ==> (#[trigger] front[i]).len() > 0 && front[i] != "cik"@,
    ensures
        metadata_columns::resolved(Seq::empty()) == Err::<Seq<ColumnSpecView>, ColumnErrorView>(
            ColumnErrorView::NoColumns,
        ),
        wrong.len() == 0 ==> metadata_columns::resolved(front + seq![wrong] + back) == Err::<
            Seq<ColumnSpecView>,
            ColumnErrorView,
        >(ColumnErrorView::EmptyName),
        wrong == seq!['c', 'i', 'k'] ==> metadata_columns::resolved(front + seq![wrong] + back)
            == Err::<Seq<ColumnSpecView>, ColumnErrorView>(ColumnErrorView::CikRequested),
        front.contains(wrong) ==> metadata_columns::resolved(front + seq![wrong] + back) == Err::<
            Seq<ColumnSpecView>,
            ColumnErrorView,
        >(ColumnErrorView::Duplicate(wrong)),
{
    reveal_strlit("cik");
    assert("cik"@ =~= seq!['c', 'i', 'k']);
    assert forall|i: int, j: int| 0 <= i < j < front.len() implies front[i] != front[j] by {}
    metadata_columns::lemma_no_fault(front);
    let all = front + seq![wrong] + back;
    let n = (front.len() + 1) as int;
    let upto = all.take(n);
    assert(upto.drop_last() =~= front);
    assert(upto.last() == wrong);
    if front.contains(wrong) {
        let i = choose|i: int| 0 <= i < front.len() && front[i] == wrong;
        assert(front[i].len() > 0 && front[i] != "cik"@);
    }
    if wrong.len() == 0 || wrong == "cik"@ || front.contains(wrong) {
        metadata_columns::lemma_fault_persists(all, n);
    }
}

/// Where no columns are asked for there are sixteen; otherwise those that were.
pub proof fn law_requested_columns(names: Vec<String>, i: int)
    ensures
        metadata_columns::requested_names(None) == seq![
            "accessionNumber"@, "filingDate"@, "reportDate"@, "acceptanceDateTime"@, "act"@,
            "form"@, "fileNumber"@, "filmNumber"@, "items"@, "core_type"@, "size"@, "isXBRL"@,
            "isInlineXBRL"@, "isXBRLNumeric"@, "primaryDocument"@, "primaryDocDescription"@,
        ],
        metadata_columns::requested_names(Some(names)).len() == names@.len(),
        0 <= i < names@.len() ==> metadata_columns::requested_names(Some(names))[i]
            == names@[i]@,
{
}

/// The schema has the filer's number first and then every column, under its name and of
/// its kind; no value is ever absent.
pub proof fn law_schema_of_columns(specs: Seq<ColumnSpecView>, i: int)
    ensures
        ({
            let fields = metadata_columns::fields_of(specs);
            &&& fields.len() == specs.len() + 1
            &&& fields[0].name == "cik"@
            &&& fields[0].kind == Some(ColumnKind::UInt64)
            &&& !fields[0].nullable
            &&& 0 <= i < specs.len() ==> {
                &&& fields[i + 1].name == specs[i].name
                &&& fields[i + 1].kind == Some(specs[i].kind)
                &&& !fields[i + 1].nullable
            }
        }),
{
}

/// The words for what is wrong with the columns.
pub proof fn law_column_messages(name: Seq<char>)
    ensures
        metadata_columns::column_message(ColumnErrorView::NoColumns)
            == "at least one submissions metadata column is required"@,
        metadata_columns::column_message(ColumnErrorView::EmptyName)
            == "submissions metadata column name cannot be empty"@,
        metadata_columns::column_message(ColumnErrorView::CikRequested)
            == "cik is always included and cannot be requested as a submissions metadata column"@,
        metadata_columns::column_message(ColumnErrorView::Duplicate(name))
            == "duplicate submissions metadata column "@ + name,
{
}

/// The views of columns, names and errors hold all that these do.
pub proof fn law_columns_are_viewed_whole(
    specs: Seq<ColumnSpec>,
    strings: Seq<String>,
    viewed: Seq<ColumnSpecView>,
    error: ColumnError,
    result: Result<Vec<ColumnSpec>, ColumnError>,
    i: int,
)
    ensures
        metadata_columns::specs_view(specs).len() == specs.len(),
        0 <= i < specs.len() ==> metadata_columns::specs_view(specs)[i].name == specs[i].name@
            && metadata_columns::specs_view(specs)[i].kind == specs[i].kind,
        metadata_columns::strings_view(strings).len() == strings.len(),
        0 <= i < strings.len() ==> metadata_columns::strings_view(strings)[i] == strings[i]@,
        metadata_columns::names_of(viewed).len() == viewed.len(),
        0 <= i < viewed.len() ==> metadata_columns::names_of(viewed)[i] == viewed[i].name,
        match error {
            ColumnError::NoColumns => error@ == ColumnErrorView::NoColumns,
            ColumnError::EmptyName => error@ == ColumnErrorView::EmptyName,
            ColumnError::CikRequested => error@ == ColumnErrorView::CikRequested,
            ColumnError::Duplicate(name) => error@ == ColumnErrorView::Duplicate(name@),
        },
        match result {
            Ok(specs) => metadata_columns::columns_result(result) is Ok
                && metadata_columns::columns_result(result)->Ok_0 == metadata_columns::specs_view(
                specs@,
            ),
            Err(error) => metadata_columns::columns_result(result) == Err::<
                Seq<ColumnSpecView>,
                ColumnErrorView,
            >(error@),
        },
{
}

/// A batch without filings has a column of each kind that is asked for, without values.
pub proof fn law_new_batches_are_empty(specs: Seq<ColumnSpecView>, k: int)
    ensures
        ({
            let batch = metadata_batch::empty_batch(specs);
            &&& batch.ciks.len() == 0
            &&& batch.files == 0
            &&& batch.json_bytes == 0
            &&& batch.columns.len() == specs.len()
            &&& 0 <= k < specs.len() ==> batch.columns[k].len() == 0 && batch.columns[k].kind()
                == specs[k].kind
        }),
{
}

/// The filings of a file stand behind those of a batch: the filer's number once for each,
/// and in every column the cells of that column. The file and its bytes are counted.
pub proof fn law_files_are_appended(
    batch: BatchView,
    file: FileRows,
    json_bytes: nat,
    i: int,
    k: int,
)
    ensures
        ({
            let next = batch.append(file, json_bytes);
            &&& next.ciks.len() == batch.ciks.len() + file.rows
            &&& 0 <= i < batch.ciks.len() ==> next.ciks[i] == batch.ciks[i]
            &&& batch.ciks.len() <= i < next.ciks.len() ==> next.ciks[i] == file.cik
            &&& next.columns.len() == batch.columns.len()
            &&& 0 <= k < batch.columns.len() ==> next.columns[k] == batch.columns[k].append(
                file.cells[k],
            )
            &&& next.files == batch.files + 1
            &&& next.json_bytes == batch.json_bytes + json_bytes
        }),
{
}

/// An emptied batch has the same columns without values, and counts nothing.
pub proof fn law_emptied_batches(batch: BatchView, k: int)
    ensures
        batch.emptied().ciks.len() == 0,
        batch.emptied().files == 0,
        batch.emptied().json_bytes == 0,
        batch.emptied().columns.len() == batch.columns.len(),
        0 <= k < batch.columns.len() ==> batch.emptied().columns[k].len() == 0
            && batch.emptied().columns[k].kind() == batch.columns[k].kind(),
{
}

/// What it means that a batch has a value for every filing, has columns of given kinds,
/// and has room for cells: there is nothing else to it than that each column does.
pub proof fn law_shape_of_a_batch(
    batch: BatchView,
    specs: Seq<ColumnSpecView>,
    cells: Seq<Seq<CellView>>,
)
    ensures
        batch.is_rectangular() <==> forall|k: int|
            0 <= k < batch.columns.len() ==> (#[trigger] batch.columns[k]).len()
                == batch.ciks.len(),
        batch.has_kinds(specs) <==> batch.columns.len() == specs.len() && forall|k: int|
            0 <= k < specs.len() ==> (#[trigger] batch.columns[k]).kind() == specs[k].kind,
        batch.has_room(cells) <==> forall|k: int|
            0 <= k < batch.columns.len() ==> (#[trigger] batch.columns[k]).has_room(cells[k]),
{
}

/// The first name under which there is no array is the one that is missing; none is
/// where there is one under each.
pub proof fn law_first_missing_name(
    filings: JsonView,
    front: Seq<Seq<char>>,
    name: Seq<char>,
    back: Seq<Seq<char>>,
)
    requires
        forall|i: int|
            0 <= i < front.len() ==> submissions::field_cells(filings, #[trigger] front[i])
                is Some,
        submissions::field_cells(filings, name) is None,
    ensures
        metadata_batch::first_missing(filings, front) is None,
        metadata_batch::first_missing(filings, front + seq![name] + back) == Some(name),
    decreases front.len(),
{
    lemma_none_missing(filings, front);
    let all = front + seq![name] + back;
    let n = (front.len() + 1) as int;
    let upto = all.take(n);
    assert(upto.drop_last() =~= front);
    assert(upto.last() == name);
    metadata_batch::lemma_missing_persists(filings, all, n);
}

proof fn lemma_none_missing(filings: JsonView, names: Seq<Seq<char>>)
    requires
        forall|i: int|
            0 <= i < names.len() ==> submissions::field_cells(filings, #[trigger] names[i])
                is Some,
    ensures
        metadata_batch::first_missing(filings, names) is None,
    decreases names.len(),
{
    if names.len() > 0 {
        let rest = names.drop_last();
        assert forall|i: int| 0 <= i < rest.len() implies submissions::field_cells(
            filings,
            #[trigger] rest[i],
        ) is Some by {
            assert(submissions::field_cells(filings, names[i]) is Some);
        }
        lemma_none_missing(filings, rest);
        assert(submissions::field_cells(filings, names[names.len() - 1]) is Some);
    }
}

/// A document gives one filing for each accession number, with as many cells of every
/// column, which are the first of the column's array.
pub proof fn law_rows_of_a_document(
    filename: Seq<char>,
    cik: u64,
    data: JsonView,
    names: Seq<Seq<char>>,
    filings: JsonView,
    accessions: Seq<CellView>,
    k: int,
    i: int,
)
    requires
        submissions::filings_of(filename, data) == Some(filings),
        submissions::field_cells(filings, "accessionNumber"@) == Some(accessions),
        forall|j: int|
            0 <= j < names.len() ==> submissions::field_cells(filings, #[trigger] names[j])
                is Some,
    ensures
        ({
            let rows = metadata_batch::document_rows(filename, cik, data, names);
            &&& 0 <= k < names.len() && submissions::field_cells(filings, names[k])->0.len()
                < accessions.len() ==> rows == Err::<FileRows, SubmissionErrorView>(
                SubmissionErrorView::MismatchedLengths,
            )
            &&& rows is Err ==> exists|j: int|
                0 <= j < names.len() && submissions::field_cells(
                    filings,
                    #[trigger] names[j],
                )->0.len() < accessions.len()
            &&& rows matches Ok(file) ==> {
                &&& file.cik == cik
                &&& file.rows == accessions.len()
                &&& file.cells.len() == names.len()
                &&& 0 <= k < names.len() ==> file.cells[k].len() == accessions.len()
                &&& 0 <= k < names.len() && 0 <= i < accessions.len() ==> file.cells[k][i]
                    == submissions::field_cells(filings, names[k])->0[i]
            }
        }),
{
    lemma_none_missing(filings, names);
    let rows = metadata_batch::document_rows(filename, cik, data, names);
    if rows is Ok && 0 <= k < names.len() {
        assert(submissions::field_cells(filings, names[k])->0.len() >= accessions.len());
    }
}

/// A document without filings, without accession numbers or without an array under one of
/// the names gives none, and it is told what is missing first.
pub proof fn law_documents_without_rows(
    filename: Seq<char>,
    cik: u64,
    data: JsonView,
    front: Seq<Seq<char>>,
    name: Seq<char>,
    back: Seq<Seq<char>>,
)
    ensures
        ({
            let names = front + seq![name] + back;
            let rows = metadata_batch::document_rows(filename, cik, data, names);
            match submissions::filings_of(filename, data) {
                None => rows == Err::<FileRows, SubmissionErrorView>(
                    SubmissionErrorView::MissingRecentFilings,
                ),
                Some(filings) => {
                    &&& submissions::field_cells(filings, "accessionNumber"@) is None ==> rows
                        == Err::<FileRows, SubmissionErrorView>(
                        SubmissionErrorView::MissingArrayField("accessionNumber"@),
                    )
                    &&& submissions::field_cells(filings, "accessionNumber"@) is Some && (
                    forall|i: int|
                        0 <= i < front.len() ==> submissions::field_cells(
                            filings,
                            #[trigger] front[i],
                        ) is Some) && submissions::field_cells(filings, name) is None ==> rows
                        == Err::<FileRows, SubmissionErrorView>(
                        SubmissionErrorView::MissingArrayField(name),
                    )
                },
            }
        }),
{
    if let Some(filings) = submissions::filings_of(filename, data) {
        if (forall|i: int|
            0 <= i < front.len() ==> submissions::field_cells(filings, #[trigger] front[i])
                is Some) && submissions::field_cells(filings, name) is None {
            law_first_missing_name(filings, front, name, back);
        }
    }
}

/// What is wrong with a name is told before what is wrong with the document; where
/// nothing is, the filings are those of the document for the filer of the name.
pub proof fn law_rows_of_a_file(
    filename: Seq<char>,
    data: JsonView,
    words: Seq<Seq<char>>,
    names: Seq<Seq<char>>,
)
    ensures
        match submissions::cik_of(filename) {
            Err(error) => {
                &&& metadata_batch::file_rows(filename, Ok(data), names) == Err::<
                    FileRows,
                    SubmissionErrorView,
                >(error)
                &&& metadata_batch::file_rows(filename, Err(words), names) == Err::<
                    FileRows,
                    SubmissionErrorView,
                >(error)
            },
            Ok(cik) => {
                &&& metadata_batch::file_rows(filename, Ok(data), names)
                    == metadata_batch::document_rows(filename, cik, data, names)
                &&& metadata_batch::file_rows(filename, Err(words), names) == Err::<
                    FileRows,
                    SubmissionErrorView,
                >(SubmissionErrorView::InvalidJson(words))
            },
        },
{
}

/// Of every array the first cells are taken, as many as there are rows.
pub proof fn law_rows_of_arrays(
    cik: u64,
    rows: usize,
    arrays: Seq<&Vec<Cell>>,
    k: int,
    i: int,
)
    requires
        0 <= k < arrays.len(),
        rows <= arrays[k]@.len(),
    ensures
        ({
            let file = metadata_batch::rows_view(cik, rows, arrays);
            &&& file.cik == cik
            &&& file.rows == rows
            &&& file.cells == metadata_batch::arrays_cells(arrays, rows as int)
            &&& file.cells.len() == arrays.len()
            &&& file.cells[k].len() == rows
            &&& 0 <= i < rows ==> file.cells[k][i] == arrays[k]@[i]@
        }),
{
}

/// A finished batch has the filers' numbers first and then the columns.
pub proof fn law_arrays_of_a_batch(batch: BatchView, k: int)
    ensures
        metadata_batch::batch_arrays(batch).len() == batch.columns.len() + 1,
        metadata_batch::batch_arrays(batch)[0] == Some(ColumnView::UInt64(batch.ciks)),
        0 <= k < batch.columns.len() ==> metadata_batch::batch_arrays(batch)[k + 1] == Some(
            batch.columns[k],
        ),
{
}

/// The view of a batch holds all that the batch does.
pub proof fn law_batches_are_viewed_whole(buffer: SubmissionBatchBuffer, k: int)
    ensures
        buffer@.ciks == buffer.ciks@,
        buffer@.files == buffer.files,
        buffer@.json_bytes == buffer.json_bytes,
        buffer@.columns.len() == buffer.columns@.len(),
        0 <= k < buffer.columns@.len() ==> buffer@.columns[k] == buffer.columns@[k].values(),
        construct_submissions_metadata::batch_option(Some(buffer)) == Some(buffer@),
        construct_submissions_metadata::batch_option(None) is None,
{
}

/// The views of an export and of its errors hold all that these do.
pub proof fn law_exports_are_viewed_whole(export: MetadataExport, error: MetadataError)
    ensures
        export@.columns == metadata_columns::specs_view(export.columns@),
        export@.buffer == export.buffer@,
        export@.files_processed == export.stats.files_processed,
        export@.files_skipped == export.stats.files_skipped,
        export@.filings_written == export.stats.filings_written,
        export@.batches_written == export.stats.batches_written,
        match error {
            MetadataError::UnreadableEntry(cause) => error@
                == MetadataErrorView::UnreadableEntry(archive::zip_error_words(cause)),
            MetadataError::UnreadableContents(cause) => error@
                == MetadataErrorView::UnreadableContents(archive::io_error_words(cause)),
            MetadataError::File(cause) => error@ == MetadataErrorView::File(cause@),
            MetadataError::TooLarge => error@ == MetadataErrorView::TooLarge,
        },
{
}

/// A new export has counted nothing and holds no filings.
pub proof fn law_new_exports(specs: Seq<ColumnSpecView>)
    ensures
        ({
            let state = construct_submissions_metadata::new_export(specs);
            &&& state.columns == specs
            &&& state.buffer == metadata_batch::empty_batch(specs)
            &&& state.files_processed == 0
            &&& state.files_skipped == 0
            &&& state.filings_written == 0
            &&& state.batches_written == 0
        }),
{
}

/// An export is valid where its buffer has its columns with a value in each for every
/// filing, and where no fewer files were counted than the buffer and the batches need.
pub proof fn law_valid_exports(state: ExportView)
    ensures
        state.is_valid() <==> {
            &&& state.buffer.has_kinds(state.columns)
            &&& state.buffer.is_rectangular()
            &&& state.files_processed >= state.buffer.files
            &&& state.files_processed >= state.batches_written
            &&& state.buffer.ciks.len() > 0 ==> state.files_processed > state.batches_written
        },
{
}

/// The filings of a file are taken where every column has room for them and no count
/// would pass what it can hold; otherwise it is refused as too large. What could not be
/// read is refused with its error.
pub proof fn law_room_for_a_file(
    state: ExportView,
    file: FileRows,
    json_bytes: nat,
    error: SubmissionErrorView,
)
    ensures
        state.append_rows(Err(error), json_bytes) == Err::<ExportView, MetadataErrorView>(
            MetadataErrorView::File(error),
        ),
        state.fits(file, json_bytes) <==> {
            &&& state.buffer.has_room(file.cells)
            &&& state.buffer.json_bytes + json_bytes <= usize::MAX
            &&& state.files_processed + 1 <= usize::MAX
            &&& state.filings_written + file.rows <= usize::MAX
        },
        !state.fits(file, json_bytes) <==> state.append_rows(Ok(file), json_bytes) == Err::<
            ExportView,
            MetadataErrorView,
        >(MetadataErrorView::TooLarge),
        state.fits(file, json_bytes) ==> {
            let next = state.append_rows(Ok(file), json_bytes);
            &&& next == Ok::<ExportView, MetadataErrorView>(state.append(file, json_bytes))
            &&& next->Ok_0.buffer == state.buffer.append(file, json_bytes)
            &&& next->Ok_0.columns == state.columns
            &&& next->Ok_0.files_processed == state.files_processed + 1
            &&& next->Ok_0.filings_written == state.filings_written + file.rows
            &&& next->Ok_0.files_skipped == state.files_skipped
            &&& next->Ok_0.batches_written == state.batches_written
        },
{
}

/// What is handed out is all that the buffer holds, where it holds any filing; it is
/// then left empty. A batch that was written is counted once.
pub proof fn law_batches_are_handed_out(state: ExportView)
    ensures
        state.pending() == if state.buffer.ciks.len() > 0 {
            Some(state.buffer)
        } else {
            None
        },
        state.flushed().columns == state.columns,
        state.flushed().files_processed == state.files_processed,
        state.flushed().files_skipped == state.files_skipped,
        state.flushed().filings_written == state.filings_written,
        state.flushed().batches_written == state.batches_written,
        state.flushed().buffer.ciks.len() == 0,
        state.buffer.ciks.len() > 0 ==> state.flushed().buffer == state.buffer.emptied(),
        state.buffer.ciks.len() == 0 ==> state.flushed() == state,
        state.counted() == (ExportView {
            batches_written: (state.batches_written + 1) as nat,
            ..state
        }),
{
}

/// An entry that could not be opened stops the export, and so does one that holds filings
/// and could not be read; one that holds none changes nothing.
pub proof fn law_entries_without_filings(
    state: ExportView,
    name: Seq<char>,
    contents: Result<Seq<u8>, Seq<Seq<char>>>,
    words: Seq<Seq<char>>,
)
    ensures
        state.add(EntryView::Unreadable(words)) == Err::<
            (ExportView, Option<BatchView>),
            MetadataErrorView,
        >(MetadataErrorView::UnreadableEntry(words)),
        !(name.len() >= 3 && name[0] == 'C' && name[1] == 'I' && name[2] == 'K') ==> state.add(
            (EntryView::File { name, contents }),
        ) == Ok::<(ExportView, Option<BatchView>), MetadataErrorView>((state, None)),
        name.len() >= 3 && name[0] == 'C' && name[1] == 'I' && name[2] == 'K' ==> state.add(
            (EntryView::File { name, contents: Err(words) }),
        ) == Err::<(ExportView, Option<BatchView>), MetadataErrorView>(
            MetadataErrorView::UnreadableContents(words),
        ),
{
    document_laws::lemma_begins_with_cik(name);
}

/// The filings of an entry go into the buffer. As soon as it holds a hundred thousand or
/// more, all of it is handed out as one batch, and never before.
pub proof fn law_entries_with_filings(state: ExportView, name: Seq<char>, bytes: Seq<u8>)
    requires
        name.len() >= 3,
        name[0] == 'C',
        name[1] == 'I',
        name[2] == 'K',
    ensures
        ({
            let added = state.add((EntryView::File { name, contents: Ok(bytes) }));
            match metadata_batch::file_rows(
                name,
                json::parsed_json(bytes),
                metadata_columns::names_of(state.columns),
            ) {
                Err(error) => added == Err::<(ExportView, Option<BatchView>), MetadataErrorView>(
                    MetadataErrorView::File(error),
                ),
                Ok(file) => {
                    let total = state.buffer.ciks.len() + file.rows;
                    let all = state.buffer.append(file, bytes.len());
                    &&& !state.fits(file, bytes.len()) ==> added == Err::<
                        (ExportView, Option<BatchView>),
                        MetadataErrorView,
                    >(MetadataErrorView::TooLarge)
                    &&& state.fits(file, bytes.len()) ==> {
                        &&& added is Ok
                        &&& total < 100_000 ==> added->Ok_0.1 is None && added->Ok_0.0.buffer
                            == all
                        &&& total >= 100_000 ==> added->Ok_0.1 == Some(all)
                            && added->Ok_0.0.buffer == all.emptied()
                        &&& added->Ok_0.0.columns == state.columns
                        &&& added->Ok_0.0.files_processed == state.files_processed + 1
                        &&& added->Ok_0.0.files_skipped == state.files_skipped
                        &&& added->Ok_0.0.filings_written == state.filings_written + file.rows
                        &&& added->Ok_0.0.batches_written == state.batches_written
                    }
                },
            }
        }),
{
    document_laws::lemma_begins_with_cik(name);
}

/// A run takes the entries in their order, from a new export on. Each batch that is
/// handed out is kept behind those before it and counted.
pub proof fn law_runs_take_every_entry(
    specs: Seq<ColumnSpecView>,
    before: Seq<EntryView>,
    entry: EntryView,
)
    ensures
        metadata_archive::run(specs, Seq::empty()) == Ok::<RunView, (nat, MetadataErrorView)>(
            RunView {
                state: construct_submissions_metadata::new_export(specs),
                batches: Seq::empty(),
            },
        ),
        match metadata_archive::run(specs, before) {
            Err(error) => metadata_archive::run(specs, before.push(entry)) == Err::<
                RunView,
                (nat, MetadataErrorView),
            >(error),
            Ok(current) => match current.state.add(entry) {
                Err(error) => metadata_archive::run(specs, before.push(entry)) == Err::<
                    RunView,
                    (nat, MetadataErrorView),
                >((before.len(), error)),
                Ok((state, None)) => metadata_archive::run(specs, before.push(entry)) == Ok::<
                    RunView,
                    (nat, MetadataErrorView),
                >(RunView { state, batches: current.batches }),
                Ok((state, Some(batch))) => metadata_archive::run(specs, before.push(entry))
                    == Ok::<RunView, (nat, MetadataErrorView)>(
                    RunView { state: state.counted(), batches: current.batches.push(batch) },
                ),
            },
        },
{
    assert(before.push(entry).drop_last() =~= before);
    assert(before.push(entry).last() == entry);
}

/// What stops a run stops it whatever comes behind.
pub proof fn law_runs_stop_at_the_first_error(
    specs: Seq<ColumnSpecView>,
    before: Seq<EntryView>,
    rest: Seq<EntryView>,
)
    requires
        metadata_archive::run(specs, before) is Err,
    ensures
        metadata_archive::run(specs, before + rest) == metadata_archive::run(specs, before),
{
    let all = before + rest;
    assert(all.take(before.len() as int) =~= before);
    metadata_archive::lemma_error_persists(specs, all, before.len() as int);
}

/// At its end a run hands out what is left in the buffer as one more batch.
pub proof fn law_runs_leave_nothing(current: RunView)
    ensures
        current.state.buffer.ciks.len() == 0 ==> current.finished() == current,
        current.state.buffer.ciks.len() > 0 ==> {
            &&& current.finished().batches == current.batches.push(current.state.buffer)
            &&& current.finished().state.buffer.ciks.len() == 0
            &&& current.finished().state.batches_written == current.state.batches_written + 1
            &&& current.finished().state.files_processed == current.state.files_processed
            &&& current.finished().state.files_skipped == current.state.files_skipped
            &&& current.finished().state.filings_written == current.state.filings_written
        },
{
}

/// A batch is kept and counted where there is one.
pub proof fn law_batches_are_kept(
    state: ExportView,
    batches: Seq<BatchView>,
    batch: BatchView,
)
    ensures
        metadata_archive::after_write(state, None) == state,
        metadata_archive::after_write(state, Some(batch)) == state.counted(),
        metadata_archive::with_batch(batches, None) == batches,
        metadata_archive::with_batch(batches, Some(batch)) == batches.push(batch),
{
}

/// Finished batches are as many as were handed out, in their order, with the columns and
/// the schema of the export; the counts are those of the run.
pub proof fn law_exports_hold_the_run(
    specs: Seq<ColumnSpecView>,
    entries: Seq<EntryView>,
    batches: Vec<ColumnBatch>,
    stats: ConstructSubmissionsMetadataStats,
    i: int,
)
    requires
        metadata_archive::is_export(specs, entries, Ok((batches, stats))),
    ensures
        metadata_archive::run(specs, entries) is Ok,
        ({
            let done = metadata_archive::run(specs, entries)->Ok_0.finished();
            &&& batches@.len() == done.batches.len()
            &&& 0 <= i < batches@.len() ==> {
                &&& columns::batch_columns(batches@[i]) == metadata_batch::batch_arrays(
                    done.batches[i],
                )
                &&& columns::batch_fields(batches@[i]) == metadata_columns::fields_of(specs)
            }
            &&& stats.files_processed == done.state.files_processed
            &&& stats.files_skipped == done.state.files_skipped
            &&& stats.filings_written == done.state.filings_written
            &&& stats.batches_written == done.state.batches_written
        }),
{
}

/// An export that stopped tells the number of the entry and the error of the run.
pub proof fn law_stopped_exports_tell_the_error(
    specs: Seq<ColumnSpecView>,
    entries: Seq<EntryView>,
    index: usize,
    error: MetadataError,
)
    ensures
        metadata_archive::is_export(specs, entries, Err((index, error)))
            <==> metadata_archive::run(specs, entries) == Err::<RunView, (nat, MetadataErrorView)>(
            (index as nat, error@),
        ),
{
}

/// What holds of the counts over a run is told of the export, of its batches and of its
/// entries.
pub proof fn law_counted_runs(
    specs: Seq<ColumnSpecView>,
    entries: Seq<EntryView>,
    current: RunView,
    i: int,
)
    requires
        metadata_archive::run_is_counted(specs, entries, current),
    ensures
        current.state.is_valid(),
        current.state.columns == specs,
        current.state.files_processed == metadata_archive::files_in(entries),
        current.state.files_skipped == 0,
        current.state.filings_written == metadata_archive::filings_in(current.batches)
            + current.state.buffer.ciks.len(),
        current.state.batches_written == current.batches.len(),
        0 <= i < current.batches.len() ==> current.batches[i].ciks.len() >= 100_000,
{
}

/// Rows that are appended, or why they are not, are told as they are.
pub proof fn law_appended_rows_are_told(
    before: ExportView,
    after: ExportView,
    file: Result<FileRows, SubmissionErrorView>,
    json_bytes: nat,
    rows: usize,
    error: MetadataError,
)
    ensures
        construct_submissions_metadata::is_appended(before, after, file, json_bytes, Ok(rows)) ==> {
            &&& file is Ok
            &&& file->Ok_0.rows == rows
            &&& before.fits(file->Ok_0, json_bytes)
            &&& after == before.append(file->Ok_0, json_bytes)
        },
        construct_submissions_metadata::is_appended(before, after, file, json_bytes, Err(error))
            ==> {
            &&& after == before
            &&& file matches Err(cause) ==> error@ == MetadataErrorView::File(cause)
            &&& file matches Ok(file) ==> error@ == MetadataErrorView::TooLarge && !before.fits(
                file,
                json_bytes,
            )
        },
{
}

/// What is gathered from an archive is gathered entry by entry, and nothing of it is left
/// out.
pub proof fn law_filings_of_an_archive(
    specs: Seq<ColumnSpecView>,
    first: Seq<EntryView>,
    second: Seq<EntryView>,
    entry: EntryView,
    k: int,
)
    ensures
        metadata_archive::archive_ciks(specs, first + second) == metadata_archive::archive_ciks(
            specs,
            first,
        ) + metadata_archive::archive_ciks(specs, second),
        metadata_archive::archive_cells(specs, first + second, k)
            == metadata_archive::archive_cells(specs, first, k) + metadata_archive::archive_cells(
            specs,
            second,
            k,
        ),
        metadata_archive::files_in(first + second) == metadata_archive::files_in(first)
            + metadata_archive::files_in(second),
        match metadata_archive::rows_of(specs, entry) {
            Some(file) => {
                &&& metadata_archive::archive_ciks(specs, seq![entry]).len() == file.rows
                &&& forall|i: int|
                    0 <= i < file.rows ==> #[trigger] metadata_archive::archive_ciks(
                        specs,
                        seq![entry],
                    )[i] == file.cik
                &&& metadata_archive::archive_cells(specs, seq![entry], k) == file.cells[k]
            },
            None => {
                &&& metadata_archive::archive_ciks(specs, seq![entry]).len() == 0
                &&& metadata_archive::archive_cells(specs, seq![entry], k).len() == 0
            },
        },
    decreases second.len(),
{
    reveal_with_fuel(metadata_archive::archive_ciks, 2);
    reveal_with_fuel(metadata_archive::archive_cells, 2);
    assert(seq![entry].drop_last() =~= Seq::<EntryView>::empty());
    assert(seq![entry].last() == entry);
    if let Some(file) = metadata_archive::rows_of(specs, entry) {
        assert(metadata_archive::archive_cells(specs, seq![entry], k) =~= file.cells[k]);
    }
    if second.len() == 0 {
        assert(first + second =~= first);
        assert(metadata_archive::archive_ciks(specs, first) + metadata_archive::archive_ciks(
            specs,
            second,
        ) =~= metadata_archive::archive_ciks(specs, first));
        assert(metadata_archive::archive_cells(specs, first, k)
            + metadata_archive::archive_cells(specs, second, k)
            =~= metadata_archive::archive_cells(specs, first, k));
    } else {
        let rest = second.drop_last();
        law_filings_of_an_archive(specs, first, rest, entry, k);
        assert((first + second).drop_last() =~= first + rest);
        assert((first + second).last() == second.last());
        assert(metadata_archive::archive_ciks(specs, first + second)
            =~= metadata_archive::archive_ciks(specs, first) + metadata_archive::archive_ciks(
            specs,
            second,
        ));
        assert(metadata_archive::archive_cells(specs, first + second, k)
            =~= metadata_archive::archive_cells(specs, first, k)
            + metadata_archive::archive_cells(specs, second, k));
    }
}

/// An entry has filings where its name begins with `CIK`, it could be read, and it holds
/// them.
pub proof fn law_filings_of_an_entry(
    specs: Seq<ColumnSpecView>,
    name: Seq<char>,
    bytes: Seq<u8>,
    words: Seq<Seq<char>>,
)
    ensures
        ({
            let named = name.len() >= 3 && name[0] == 'C' && name[1] == 'I' && name[2] == 'K';
            let entry = EntryView::File { name, contents: Ok(bytes) };
            let failed = EntryView::File { name, contents: Err(words) };
            &&& !named ==> metadata_archive::rows_of(specs, entry) is None
            &&& named ==> match metadata_batch::file_rows(
                name,
                json::parsed_json(bytes),
                metadata_columns::names_of(specs),
            ) {
                Ok(file) => metadata_archive::rows_of(specs, entry) == Some(file),
                Err(_) => metadata_archive::rows_of(specs, entry) is None,
            }
            &&& metadata_archive::rows_of(specs, failed) is None
            &&& metadata_archive::rows_of(specs, EntryView::Unreadable(words)) is None
            &&& metadata_archive::files_in(seq![entry]) == if named {
                1nat
            } else {
                0nat
            }
            &&& metadata_archive::files_in(seq![failed]) == if named {
                1nat
            } else {
                0nat
            }
            &&& metadata_archive::files_in(seq![EntryView::Unreadable(words)]) == 0
        }),
{
    document_laws::lemma_begins_with_cik(name);
    reveal_with_fuel(metadata_archive::files_in, 2);
    let entry = EntryView::File { name, contents: Ok(bytes) };
    let failed = EntryView::File { name, contents: Err(words) };
    assert(seq![entry].drop_last() =~= Seq::<EntryView>::empty());
    assert(seq![failed].drop_last() =~= Seq::<EntryView>::empty());
    assert(seq![EntryView::Unreadable(words)].drop_last() =~= Seq::<EntryView>::empty());
}

/// The filings of batches are those of each of them, one batch after the other.
pub proof fn law_filings_of_batches(
    specs: Seq<ColumnSpecView>,
    first: Seq<BatchView>,
    second: Seq<BatchView>,
    batch: BatchView,
    k: int,
)
    ensures
        metadata_archive::batch_ciks(first + second) == metadata_archive::batch_ciks(first)
            + metadata_archive::batch_ciks(second),
        metadata_archive::filings_in(first + second) == metadata_archive::filings_in(first)
            + metadata_archive::filings_in(second),
        metadata_archive::batch_ciks(seq![batch]) == batch.ciks,
        metadata_archive::filings_in(seq![batch]) == batch.ciks.len(),
        metadata_archive::batch_values(specs, Seq::empty(), k) == columns::empty_column(
            specs[k].kind,
        ),
        metadata_archive::batch_values(specs, first.push(batch), k) == metadata_archive::joined(
            metadata_archive::batch_values(specs, first, k),
            batch.columns[k],
        ),
    decreases second.len(),
{
    reveal_with_fuel(metadata_archive::batch_ciks, 2);
    reveal_with_fuel(metadata_archive::filings_in, 2);
    assert(seq![batch].drop_last() =~= Seq::<BatchView>::empty());
    assert(metadata_archive::batch_ciks(seq![batch]) =~= batch.ciks);
    assert(first.push(batch).drop_last() =~= first);
    assert(first.push(batch).last() == batch);
    if second.len() == 0 {
        assert(first + second =~= first);
        assert(metadata_archive::batch_ciks(first) + metadata_archive::batch_ciks(second)
            =~= metadata_archive::batch_ciks(first));
    } else {
        let rest = second.drop_last();
        law_filings_of_batches(specs, first, rest, batch, k);
        assert((first + second).drop_last() =~= first + rest);
        assert((first + second).last() == second.last());
        assert(metadata_archive::batch_ciks(first + second) =~= metadata_archive::batch_ciks(
            first,
        ) + metadata_archive::batch_ciks(second));
    }
}

/// Columns of one kind are joined value by value.
pub proof fn law_columns_are_joined(
    texts: Seq<Seq<char>>,
    more_texts: Seq<Seq<char>>,
    numbers: Seq<u64>,
    more_numbers: Seq<u64>,
    truths: Seq<bool>,
    more_truths: Seq<bool>,
)
    ensures
        metadata_archive::joined(ColumnView::Utf8(texts), ColumnView::Utf8(more_texts))
            == ColumnView::Utf8(texts + more_texts),
        metadata_archive::joined(ColumnView::UInt64(numbers), ColumnView::UInt64(more_numbers))
            == ColumnView::UInt64(numbers + more_numbers),
        metadata_archive::joined(ColumnView::Boolean(truths), ColumnView::Boolean(more_truths))
            == ColumnView::Boolean(truths + more_truths),
{
}

} // verus!
