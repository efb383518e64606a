//! The filings of the columnar export as they are gathered for a batch.
use std::sync::Arc;

use vstd::prelude::*;

use crate::columns::{
    self, new_batch, uint64_array, ColumnBatch, ColumnBuffer, ColumnView, BATCH_TARGET_ROWS,
};
use crate::construct_submissions_data;
use crate::json::{self, Cell, CellView, Json, JsonView};
use crate::metadata_columns::{self, ColumnSpec, ColumnSpecView};
use crate::submissions::{self, field_array, filings_data, SubmissionError, SubmissionErrorView};
use crate::text;

verus! {

/// The filings that are gathered for a batch: a filer's number and a value in each
/// column for every filing.
pub struct SubmissionBatchBuffer {
    pub ciks: Vec<u64>,
    pub columns: Vec<ColumnBuffer>,
    /// How many files they came from.
    pub files: usize,
    /// How many bytes those files had.
    pub json_bytes: usize,
}

pub struct BatchView {
    pub ciks: Seq<u64>,
    pub columns: Seq<ColumnView>,
    pub files: nat,
    pub json_bytes: nat,
}

/// The filings of a file: the filer's number, how many there are, and for each
/// column their cells.
pub struct FileRows {
    pub cik: u64,
    pub rows: nat,
    pub cells: Seq<Seq<CellView>>,
}

impl View for SubmissionBatchBuffer {
    type V = BatchView;

    open spec fn view(&self) -> BatchView {
        BatchView {
            ciks: self.ciks@,
            columns: Seq::new(self.columns@.len(), |k: int| self.columns@[k].values()),
            files: self.files as nat,
            json_bytes: self.json_bytes as nat,
        }
    }
}

/// A batch without filings.
pub open spec fn empty_batch(columns: Seq<ColumnSpecView>) -> BatchView {
    BatchView {
        ciks: Seq::empty(),
        columns: Seq::new(columns.len(), |k: int| columns::empty_column(columns[k].kind)),
        files: 0,
        json_bytes: 0,
    }
}

impl BatchView {
    /// Every column has a value for every filing.
    pub open spec fn is_rectangular(self) -> bool {
        forall|k: int|
            0 <= k < self.columns.len() ==> (#[trigger] self.columns[k]).len() == self.ciks.len()
    }

    /// The columns are of those kinds.
    pub open spec fn has_kinds(self, columns: Seq<ColumnSpecView>) -> bool {
        &&& self.columns.len() == columns.len()
        &&& forall|k: int|
            0 <= k < columns.len() ==> (#[trigger] self.columns[k]).kind() == columns[k].kind
    }

    /// There is room for the text of the cells, those of each column in its place.
    pub open spec fn has_room(self, cells: Seq<Seq<CellView>>) -> bool {
        forall|k: int|
            0 <= k < self.columns.len() ==> (#[trigger] self.columns[k]).has_room(cells[k])
    }

    /// The batch with the filings of a file behind its own.
    pub open spec fn append(self, file: FileRows, json_bytes: nat) -> BatchView {
        BatchView {
            ciks: self.ciks + Seq::new(file.rows, |i: int| file.cik),
            columns: Seq::new(
                self.columns.len(),
                |k: int| self.columns[k].append(file.cells[k]),
            ),
            files: self.files + 1,
            json_bytes: self.json_bytes + json_bytes,
        }
    }

    /// A batch with the same columns and no filings.
    pub open spec fn emptied(self) -> BatchView {
        BatchView {
            ciks: Seq::empty(),
            columns: Seq::new(
                self.columns.len(),
                |k: int| columns::empty_column(self.columns[k].kind()),
            ),
            files: 0,
            json_bytes: 0,
        }
    }
}

/// The first of the names under which the filings have no array.
pub open spec fn first_missing(filings: JsonView, names: Seq<Seq<char>>) -> Option<Seq<char>>
    decreases names.len(),
{
    if names.len() == 0 {
        None
    } else {
        match first_missing(filings, names.drop_last()) {
            Some(name) => Some(name),
            None => if submissions::field_cells(filings, names.last()) is None {
                Some(names.last())
            } else {
                None
            },
        }
    }
}

/// The filings in a document: as many as it has accession numbers.
pub open spec fn document_rows(
    filename: Seq<char>,
    cik: u64,
    data: JsonView,
    names: Seq<Seq<char>>,
) -> Result<FileRows, SubmissionErrorView> {
    match submissions::filings_of(filename, data) {
        None => Err(SubmissionErrorView::MissingRecentFilings),
        Some(filings) => {
            let accessions = submissions::field_cells(filings, "accessionNumber"@);
            if accessions is None {
                Err(SubmissionErrorView::MissingArrayField("accessionNumber"@))
            } else if first_missing(filings, names) is Some {
                Err(SubmissionErrorView::MissingArrayField(first_missing(filings, names)->0))
            } else if exists|k: int|
                0 <= k < names.len() && submissions::field_cells(
                    filings,
                    #[trigger] names[k],
                )->0.len() < accessions->0.len() {
                Err(SubmissionErrorView::MismatchedLengths)
            } else {
                Ok(
                    FileRows {
                        cik,
                        rows: accessions->0.len(),
                        cells: Seq::new(
                            names.len(),
                            |k: int|
                                submissions::field_cells(filings, names[k])->0.take(
                                    accessions->0.len() as int,
                                ),
                        ),
                    },
                )
            }
        },
    }
}

/// The filings of an entry of that name that holds that document, if it holds one.
pub open spec fn file_rows(
    filename: Seq<char>,
    data: Result<JsonView, Seq<Seq<char>>>,
    names: Seq<Seq<char>>,
) -> Result<FileRows, SubmissionErrorView> {
    match submissions::cik_of(filename) {
        Err(error) => Err(error),
        Ok(cik) => match data {
            Err(words) => Err(SubmissionErrorView::InvalidJson(words)),
            Ok(data) => document_rows(filename, cik, data, names),
        },
    }
}

pub proof fn lemma_missing_persists(filings: JsonView, names: Seq<Seq<char>>, n: int)
    requires
        0 <= n <= names.len(),
        first_missing(filings, names.take(n)) is Some,
    ensures
        first_missing(filings, names) == first_missing(filings, names.take(n)),
    decreases names.len() - n,
{
    if n < names.len() {
        assert(names.take(n + 1).drop_last() =~= names.take(n));
        lemma_missing_persists(filings, names, n + 1);
    } else {
        assert(names.take(n) =~= names);
    }
}

impl SubmissionBatchBuffer {
    /// A batch without filings.
    pub fn new(columns: &[ColumnSpec]) -> (buffer: Self)
        ensures
            buffer@ == empty_batch(metadata_columns::specs_view(columns@)),
            buffer@.is_rectangular(),
            buffer@.has_kinds(metadata_columns::specs_view(columns@)),
    {
        let mut buffers: Vec<ColumnBuffer> = Vec::with_capacity(columns.len());
        let mut i: usize = 0;
        while i < columns.len()
            invariant
                i <= columns.len(),
                buffers@.len() == i,
                forall|k: int|
                    0 <= k < i ==> (#[trigger] buffers@[k]).values()
                        == columns::empty_column(columns@[k].kind),
            decreases columns.len() - i,
        {
            buffers.push(ColumnBuffer::new(columns[i].kind));
            i += 1;
        }
        let buffer = SubmissionBatchBuffer {
            ciks: Vec::with_capacity(BATCH_TARGET_ROWS),
            columns: buffers,
            files: 0,
            json_bytes: 0,
        };
        assert(buffer@.columns =~= empty_batch(metadata_columns::specs_view(columns@)).columns);
        buffer
    }

    /// How many filings there are.
    pub fn len(&self) -> (rows: usize)
        ensures
            rows == self@.ciks.len(),
    {
        self.ciks.len()
    }

    /// Whether there are no filings.
    pub fn is_empty(&self) -> (empty: bool)
        ensures
            empty == (self@.ciks.len() == 0),
    {
        self.ciks.len() == 0
    }

    /// Hands the filings over and leaves a batch without any.
    pub fn take(&mut self) -> (taken: Self)
        ensures
            taken@ == old(self)@,
            final(self)@ == old(self)@.emptied(),
            final(self)@.is_rectangular(),
    {
        let ghost before = self@;
        let mut ciks: Vec<u64> = Vec::new();
        std::mem::swap(&mut self.ciks, &mut ciks);
        let mut columns: Vec<ColumnBuffer> = Vec::with_capacity(self.columns.len());
        let mut i: usize = 0;
        while i < self.columns.len()
            invariant
                i <= self.columns.len(),
                self.columns@.len() == before.columns.len(),
                columns@.len() == i,
                self.ciks@ == Seq::<u64>::empty(),
                self.files as nat == before.files,
                self.json_bytes as nat == before.json_bytes,
                forall|k: int|
                    0 <= k < i ==> (#[trigger] columns@[k]).values() == before.columns[k],
                forall|k: int|
                    0 <= k < i ==> (#[trigger] self.columns@[k]).values()
                        == columns::empty_column(before.columns[k].kind()),
                forall|k: int|
                    i <= k < self.columns@.len() ==> (#[trigger] self.columns@[k]).values()
                        == before.columns[k],
            decreases self.columns.len() - i,
        {
            columns.push(self.columns[i].take());
            i += 1;
        }
        let taken = SubmissionBatchBuffer {
            ciks,
            columns,
            files: self.files,
            json_bytes: self.json_bytes,
        };
        self.files = 0;
        self.json_bytes = 0;
        assert(taken@.columns =~= before.columns);
        assert(self@.columns =~= before.emptied().columns);
        taken
    }
}

/// The cells of each column of the filings in a document, and how many filings
/// there are.
pub fn column_arrays<'a>(
    filename: &str,
    cik: u64,
    data: &'a Json,
    columns: &[ColumnSpec],
) -> (arrays: Result<(usize, Vec<&'a Vec<Cell>>), SubmissionError>)
    ensures
        match arrays {
            Ok((rows, arrays)) => {
                &&& arrays@.len() == columns@.len()
                &&& forall|k: int| 0 <= k < arrays@.len() ==> rows <= (#[trigger] arrays@[k])@.len()
                &&& document_rows(
                    filename@,
                    cik,
                    data@,
                    metadata_columns::names_of(metadata_columns::specs_view(columns@)),
                ) == Ok::<FileRows, SubmissionErrorView>(rows_view(cik, rows, arrays@))
            },
            Err(error) => document_rows(
                filename@,
                cik,
                data@,
                metadata_columns::names_of(metadata_columns::specs_view(columns@)),
            ) == Err::<FileRows, SubmissionErrorView>(error@),
        },
{
    let ghost names = metadata_columns::names_of(metadata_columns::specs_view(columns@));
    let filings = match filings_data(filename, data) {
        Ok(filings) => filings,
        Err(error) => return Err(error),
    };
    let rows = match field_array(filings, "accessionNumber") {
        Ok(cells) => cells.len(),
        Err(error) => return Err(error),
    };
    let mut arrays: Vec<&'a Vec<Cell>> = Vec::with_capacity(columns.len());
    let mut mismatched = false;
    let mut i: usize = 0;
    while i < columns.len()
        invariant
            i <= columns.len(),
            arrays@.len() == i,
            names == metadata_columns::names_of(metadata_columns::specs_view(columns@)),
            submissions::filings_of(filename@, data@) == Some(filings@),
            submissions::field_cells(filings@, "accessionNumber"@) is Some,
            rows == submissions::field_cells(filings@, "accessionNumber"@)->0.len(),
            first_missing(filings@, names.take(i as int)) is None,
            forall|k: int|
                0 <= k < i ==> submissions::field_cells(filings@, #[trigger] names[k])
                    == Some(json::cells_view(arrays@[k]@)),
            mismatched == exists|k: int|
                0 <= k < i && submissions::field_cells(
                    filings@,
                    #[trigger] names[k],
                )->0.len() < rows,
        decreases columns.len() - i,
    {
        let ghost upto = names.take(i + 1);
        proof {
            assert(upto.drop_last() =~= names.take(i as int));
            assert(upto.last() == columns@[i as int].name@);
            assert(names[i as int] == columns@[i as int].name@);
            if first_missing(filings@, upto) is Some {
                lemma_missing_persists(filings@, names, i + 1);
            }
        }
        let cells = match field_array(filings, columns[i].name.as_str()) {
            Ok(cells) => cells,
            Err(error) => return Err(error),
        };
        if cells.len() < rows {
            mismatched = true;
        }
        arrays.push(cells);
        i += 1;
    }
    assert(names.take(i as int) =~= names);
    if mismatched {
        return Err(SubmissionError::MismatchedLengths);
    }
    proof {
        assert forall|k: int| 0 <= k < arrays@.len() implies rows <= (
        #[trigger] arrays@[k])@.len() by {
            assert(submissions::field_cells(filings@, names[k])->0.len() >= rows);
        }
        let file = document_rows(filename@, cik, data@, names)->Ok_0;
        assert(file.cells =~= arrays_cells(arrays@, rows as int));
    }
    Ok((rows, arrays))
}

/// The filings whose cells stand in the arrays.
pub open spec fn rows_view(cik: u64, rows: usize, arrays: Seq<&Vec<Cell>>) -> FileRows {
    FileRows { cik, rows: rows as nat, cells: arrays_cells(arrays, rows as int) }
}

/// The first `rows` cells of each array.
pub open spec fn arrays_cells(arrays: Seq<&Vec<Cell>>, rows: int) -> Seq<Seq<CellView>> {
    Seq::new(arrays.len(), |k: int| json::cells_view(arrays[k]@).take(rows))
}

impl SubmissionBatchBuffer {
    /// Whether there is room for the text of the first `rows` cells of each array.
    pub fn has_room_for(&self, arrays: &Vec<&Vec<Cell>>, rows: usize) -> (fits: bool)
        requires
            arrays@.len() == self.columns@.len(),
            forall|k: int| 0 <= k < arrays@.len() ==> rows <= (#[trigger] arrays@[k])@.len(),
        ensures
            fits == self@.has_room(arrays_cells(arrays@, rows as int)),
    {
        let ghost cells = arrays_cells(arrays@, rows as int);
        let mut i: usize = 0;
        while i < self.columns.len()
            invariant
                i <= self.columns.len(),
                arrays@.len() == self.columns@.len(),
                cells == arrays_cells(arrays@, rows as int),
                forall|k: int| 0 <= k < arrays@.len() ==> rows <= (#[trigger] arrays@[k])@.len(),
                forall|k: int| 0 <= k < i ==> (#[trigger] self@.columns[k]).has_room(cells[k]),
            decreases self.columns.len() - i,
        {
            if !self.columns[i].has_room_for(arrays[i], rows) {
                assert(!self@.columns[i as int].has_room(cells[i as int]));
                return false;
            }
            i += 1;
        }
        true
    }

    /// Appends the filings of a file.
    pub fn append_rows(
        &mut self,
        cik: u64,
        rows: usize,
        arrays: &Vec<&Vec<Cell>>,
        json_bytes: usize,
    )
        requires
            arrays@.len() == old(self).columns@.len(),
            forall|k: int| 0 <= k < arrays@.len() ==> rows <= (#[trigger] arrays@[k])@.len(),
            old(self)@.has_room(arrays_cells(arrays@, rows as int)),
            old(self).files < usize::MAX,
            old(self).json_bytes + json_bytes <= usize::MAX,
        ensures
            final(self)@ == old(self)@.append(rows_view(cik, rows, arrays@), json_bytes as nat),
    {
        let ghost before = self@;
        let ghost cells = arrays_cells(arrays@, rows as int);
        self.ciks.reserve(rows);
        let mut i: usize = 0;
        while i < rows
            invariant
                i <= rows,
                self.ciks@ == before.ciks + Seq::new(i as nat, |k: int| cik),
                self.columns == old(self).columns,
                self.files == old(self).files,
                self.json_bytes == old(self).json_bytes,
            decreases rows - i,
        {
            self.ciks.push(cik);
            i += 1;
            assert(self.ciks@ =~= before.ciks + Seq::new(i as nat, |k: int| cik));
        }
        let ghost ciks = self.ciks@;
        let mut column: usize = 0;
        while column < arrays.len()
            invariant
                column <= arrays@.len(),
                arrays@.len() == before.columns.len(),
                self.columns@.len() == before.columns.len(),
                cells == arrays_cells(arrays@, rows as int),
                forall|k: int| 0 <= k < arrays@.len() ==> rows <= (#[trigger] arrays@[k])@.len(),
                before.has_room(cells),
                forall|k: int|
                    0 <= k < column ==> (#[trigger] self.columns@[k]).values()
                        == before.columns[k].append(cells[k]),
                forall|k: int|
                    column <= k < self.columns@.len() ==> (#[trigger] self.columns@[k]).values()
                        == before.columns[k],
                self.ciks@ == ciks,
                self.files == old(self).files,
                self.json_bytes == old(self).json_bytes,
            decreases arrays.len() - column,
        {
            assert(before.columns[column as int].has_room(cells[column as int]));
            self.columns[column].push_all(arrays[column], rows);
            column += 1;
        }
        self.files += 1;
        self.json_bytes += json_bytes;
        proof {
            let file = FileRows { cik, rows: rows as nat, cells };
            assert(self@.columns =~= before.append(file, json_bytes as nat).columns);
            assert(self@.ciks =~= before.append(file, json_bytes as nat).ciks);
        }
    }
}

/// The columns of a finished batch: the filers' numbers, then the columns that
/// were asked for.
pub open spec fn batch_arrays(batch: BatchView) -> Seq<Option<ColumnView>> {
    seq![Some(ColumnView::UInt64(batch.ciks))] + Seq::new(
        batch.columns.len(),
        |k: int| Some(batch.columns[k]),
    )
}

/// What an export gathers fits the schema of its columns.
pub proof fn law_batches_fit_the_schema(columns: Seq<ColumnSpecView>, batch: BatchView)
    requires
        batch.has_kinds(columns),
        batch.is_rectangular(),
    ensures
        columns::batch_fits(metadata_columns::fields_of(columns), batch_arrays(batch)),
{
    let arrays = batch_arrays(batch);
    assert forall|k: int| 0 <= k < arrays.len() implies {
        &&& (#[trigger] arrays[k]) is Some
        &&& metadata_columns::fields_of(columns)[k].kind == Some(arrays[k]->0.kind())
        &&& arrays[k]->0.len() == arrays[0]->0.len()
    } by {
        if k > 0 {
            assert(batch.columns[k - 1].len() == batch.ciks.len());
            assert(batch.columns[k - 1].kind() == columns[k - 1].kind);
        }
    }
}

impl SubmissionBatchBuffer {
    /// The finished batch.
    pub fn into_record_batch(self, schema: Arc<arrow_schema::Schema>) -> (batch: Result<
        ColumnBatch,
        arrow_schema::ArrowError,
    >)
        ensures
            match batch {
                Ok(batch) => {
                    &&& columns::batch_fits(columns::schema_fields(*schema), batch_arrays(self@))
                    &&& columns::batch_columns(batch) == batch_arrays(self@)
                    &&& columns::batch_fields(batch) == columns::schema_fields(*schema)
                },
                Err(_) => !columns::batch_fits(
                    columns::schema_fields(*schema),
                    batch_arrays(self@),
                ),
            },
    {
        let ghost expected = batch_arrays(self@);
        let ghost values = self@.columns;
        let mut arrays: Vec<arrow_data::ArrayData> = Vec::new();
        arrays.push(uint64_array(&self.ciks));
        let mut columns = self.columns;
        while columns.len() > 0
            invariant
                expected.len() == values.len() + 1,
                columns@.len() <= values.len(),
                arrays@.len() == values.len() - columns@.len() + 1,
                forall|k: int| 0 <= k < values.len() ==> expected[k + 1] == Some(#[trigger] values[k]),
                forall|k: int|
                    0 <= k < columns@.len() ==> (#[trigger] columns@[k]).values()
                        == values[values.len() - columns@.len() + k],
                forall|k: int|
                    0 <= k < arrays@.len() ==> columns::array_values(#[trigger] arrays@[k])
                        == expected[k],
            decreases columns.len(),
        {
            let ghost done = values.len() - columns@.len();
            let column = columns.remove(0);
            assert(column.values() == values[done]);
            arrays.push(column.into_array());
        }
        assert(columns::arrays_values(arrays@) =~= expected);
        new_batch(schema, arrays)
    }
}

/// The columns that the CSV export writes beside the filer's number.
pub open spec fn csv_names() -> Seq<Seq<char>> {
    seq!["accessionNumber"@, "filingDate"@, "form"@]
}

/// The two exports agree: with the columns of the CSV export, the same documents can be
/// read, for the same errors where they cannot, and the records are the rows, as text.
pub proof fn law_exports_agree(filename: Seq<char>, cik: u64, data: JsonView)
    ensures
        match (
            construct_submissions_data::document_records(filename, cik, data),
            document_rows(filename, cik, data, csv_names()),
        ) {
            (Ok(records), Ok(file)) => {
                &&& records.len() == file.rows
                &&& file.cik == cik
                &&& forall|i: int|
                    0 <= i < records.len() ==> (#[trigger] records[i]) == seq![
                        text::decimal(cik as nat),
                        submissions::cell_text(file.cells[0][i]),
                        submissions::cell_text(file.cells[1][i]),
                        submissions::cell_text(file.cells[2][i]),
                    ]
            },
            (Err(first), Err(second)) => first == second,
            _ => false,
        },
{
    let names = csv_names();
    if let Some(filings) = submissions::filings_of(filename, data) {
        assert(names.drop_last().drop_last().drop_last() =~= Seq::empty());
        assert(names.last() == "form"@);
        assert(names.drop_last().last() == "filingDate"@);
        assert(names.drop_last().drop_last().last() == "accessionNumber"@);
        reveal_with_fuel(first_missing, 4);
        let accessions = submissions::field_cells(filings, "accessionNumber"@);
        let dates = submissions::field_cells(filings, "filingDate"@);
        let forms = submissions::field_cells(filings, "form"@);
        assert(names[0] == "accessionNumber"@ && names[1] == "filingDate"@ && names[2] == "form"@);
        if accessions is Some && dates is Some && forms is Some {
            let rows = accessions->0.len();
            assert((exists|k: int|
                0 <= k < names.len() && submissions::field_cells(
                    filings,
                    #[trigger] names[k],
                )->0.len() < rows) == (dates->0.len() < rows || forms->0.len() < rows));
        }
    }
}

} // verus!
