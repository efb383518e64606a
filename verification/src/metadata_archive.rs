//! The columnar export of a whole archive that is held in memory, and what holds of
//! it from the first entry to the last.
use vstd::prelude::*;

use crate::archive::{self, SubmissionsArchive};
use crate::columns::{self, ColumnBatch, ColumnView, BATCH_TARGET_ROWS};
use crate::construct_submissions_metadata::{
    self, ConstructSubmissionsMetadataStats, ExportView, MetadataError, MetadataErrorView,
    MetadataExport,
};
use crate::json::{self, CellView};
use crate::metadata_batch::{self, BatchView, FileRows, SubmissionBatchBuffer};
use crate::metadata_columns::{self, submissions_schema, ColumnSpec, ColumnSpecView};
use crate::submissions::{self, ArchiveEntry, EntryView};

verus! {

/// An export under way and the batches that it has handed out.
pub struct RunView {
    pub state: ExportView,
    pub batches: Seq<BatchView>,
}

impl RunView {
    /// The run with the rest of the filings handed out.
    pub open spec fn finished(self) -> RunView {
        RunView {
            state: after_write(self.state.flushed(), self.state.pending()),
            batches: with_batch(self.batches, self.state.pending()),
        }
    }
}

/// The export when a batch, if one was handed out, has been written.
pub open spec fn after_write(state: ExportView, batch: Option<BatchView>) -> ExportView {
    match batch {
        Some(_) => state.counted(),
        None => state,
    }
}

pub open spec fn with_batch(batches: Seq<BatchView>, batch: Option<BatchView>) -> Seq<BatchView> {
    match batch {
        Some(batch) => batches.push(batch),
        None => batches,
    }
}

/// The run after those entries, or the number of the entry that stopped it and why.
pub open spec fn run(columns: Seq<ColumnSpecView>, entries: Seq<EntryView>) -> Result<
    RunView,
    (nat, MetadataErrorView),
>
    decreases entries.len(),
{
    if entries.len() == 0 {
        Ok(
            RunView {
                state: construct_submissions_metadata::new_export(columns),
                batches: Seq::empty(),
            },
        )
    } else {
        match run(columns, entries.drop_last()) {
            Err(error) => Err(error),
            Ok(before) => match before.state.add(entries.last()) {
                Err(error) => Err(((entries.len() - 1) as nat, error)),
                Ok((state, batch)) => Ok(
                    RunView {
                        state: after_write(state, batch),
                        batches: with_batch(before.batches, batch),
                    },
                ),
            },
        }
    }
}

pub proof fn lemma_error_persists(columns: Seq<ColumnSpecView>, entries: Seq<EntryView>, n: int)
    requires
        0 <= n <= entries.len(),
        run(columns, entries.take(n)) is Err,
    ensures
        run(columns, entries) == run(columns, entries.take(n)),
    decreases entries.len() - n,
{
    if n < entries.len() {
        assert(entries.take(n + 1).drop_last() =~= entries.take(n));
        lemma_error_persists(columns, entries, n + 1);
    } else {
        assert(entries.take(n) =~= entries);
    }
}

/// Makes a batch of what an export handed out.
fn finish_batch(batch: SubmissionBatchBuffer, columns: &[ColumnSpec]) -> (finished: ColumnBatch)
    requires
        batch@.has_kinds(metadata_columns::specs_view(columns@)),
        batch@.is_rectangular(),
    ensures
        columns::batch_columns(finished)
            == metadata_batch::batch_arrays(batch@),
        columns::batch_fields(finished) == metadata_columns::fields_of(
            metadata_columns::specs_view(columns@),
        ),
{
    proof {
        metadata_batch::law_batches_fit_the_schema(
            metadata_columns::specs_view(columns@),
            batch@,
        );
    }
    match batch.into_record_batch(submissions_schema(columns)) {
        Ok(finished) => finished,
        Err(_) => vstd::pervasive::unreached(),
    }
}

/// The finished batches are those that a run handed out.
pub open spec fn are_finished(
    finished: Seq<ColumnBatch>,
    batches: Seq<BatchView>,
    columns: Seq<ColumnSpecView>,
) -> bool {
    &&& finished.len() == batches.len()
    &&& forall|i: int|
        0 <= i < finished.len() ==> columns::batch_columns(#[trigger] finished[i])
            == metadata_batch::batch_arrays(batches[i])
    &&& forall|i: int|
        0 <= i < finished.len() ==> columns::batch_fields(#[trigger] finished[i])
            == metadata_columns::fields_of(columns)
}

/// The counts are those of the export.
pub open spec fn stats_of(stats: ConstructSubmissionsMetadataStats, state: ExportView) -> bool {
    &&& stats.files_processed == state.files_processed
    &&& stats.files_skipped == state.files_skipped
    &&& stats.filings_written == state.filings_written
    &&& stats.batches_written == state.batches_written
}

/// The result of an export of those entries.
pub open spec fn is_export(
    columns: Seq<ColumnSpecView>,
    entries: Seq<EntryView>,
    export: Result<(Vec<ColumnBatch>, ConstructSubmissionsMetadataStats), (usize, MetadataError)>,
) -> bool {
    match export {
        Ok((batches, stats)) => {
            &&& run(columns, entries) is Ok
            &&& are_finished(batches@, run(columns, entries)->Ok_0.finished().batches, columns)
            &&& stats_of(stats, run(columns, entries)->Ok_0.finished().state)
        },
        Err((index, error)) => run(columns, entries) == Err::<RunView, (nat, MetadataErrorView)>(
            (index as nat, error@),
        ),
    }
}

/// The state of a run after the entries before this one.
pub open spec fn is_run(
    export: MetadataExport,
    batches: Seq<ColumnBatch>,
    columns: Seq<ColumnSpecView>,
    done: Seq<EntryView>,
) -> bool {
    &&& export@.is_valid()
    &&& export@.columns == columns
    &&& run(columns, done) is Ok
    &&& export@ == run(columns, done)->Ok_0.state
    &&& are_finished(batches, run(columns, done)->Ok_0.batches, columns)
}

/// Takes an entry behind those before it.
fn run_entry(
    export: &mut MetadataExport,
    batches: &mut Vec<ColumnBatch>,
    entry: ArchiveEntry,
    Ghost(columns): Ghost<Seq<ColumnSpecView>>,
    Ghost(done): Ghost<Seq<EntryView>>,
    Ghost(next): Ghost<EntryView>,
) -> (taken: Result<(), MetadataError>)
    requires
        is_run(*old(export), old(batches)@, columns, done),
        entry@ == next || entry@ == submissions::as_read(next),
    ensures
        match taken {
            Ok(_) => is_run(*final(export), final(batches)@, columns, done.push(next)),
            Err(error) => run(columns, done.push(next)) == Err::<
                RunView,
                (nat, MetadataErrorView),
            >((done.len(), error@)),
        },
{
    proof {
        assert(done.push(next).drop_last() =~= done);
        assert(export@.add(entry@) == export@.add(next));
        lemma_handed_out(export@, next);
    }
    match export.add_entry(entry) {
        Err(error) => Err(error),
        Ok(None) => Ok(()),
        Ok(Some(batch)) => {
            batches.push(finish_batch(batch, export.columns.as_slice()));
            export.batch_written();
            Ok(())
        },
    }
}

/// Hands out the rest of the filings.
fn finish_run(
    export: MetadataExport,
    batches: Vec<ColumnBatch>,
    Ghost(columns): Ghost<Seq<ColumnSpecView>>,
    Ghost(done): Ghost<Seq<EntryView>>,
) -> (finished: (Vec<ColumnBatch>, ConstructSubmissionsMetadataStats))
    requires
        is_run(export, batches@, columns, done),
    ensures
        are_finished(finished.0@, run(columns, done)->Ok_0.finished().batches, columns),
        stats_of(finished.1, run(columns, done)->Ok_0.finished().state),
{
    let mut export = export;
    let mut batches = batches;
    if let Some(batch) = export.flush_batch() {
        batches.push(finish_batch(batch, export.columns.as_slice()));
        export.batch_written();
    }
    (batches, export.stats)
}

/// The batches of the entries of an archive, and the counts; or the number of the entry
/// that stopped the export, and why.
pub fn write_entries(entries: Vec<ArchiveEntry>, columns: Vec<ColumnSpec>) -> (export: Result<
    (Vec<ColumnBatch>, ConstructSubmissionsMetadataStats),
    (usize, MetadataError),
>)
    ensures
        is_export(
            metadata_columns::specs_view(columns@),
            submissions::entries_view(entries@),
            export,
        ),
{
    let ghost specs = metadata_columns::specs_view(columns@);
    let ghost all = submissions::entries_view(entries@);
    let mut export = MetadataExport::new(columns);
    let mut batches: Vec<ColumnBatch> = Vec::new();
    let mut index: usize = 0;
    assert(all.take(0) =~= Seq::empty());
    assert(entries@.len() == entries.len());
    for entry in iter: entries
        invariant
            index == iter.index(),
            all.len() <= usize::MAX,
            specs == metadata_columns::specs_view(columns@),
            all == submissions::entries_view(iter.seq()),
            all == submissions::entries_view(entries@),
            is_run(export, batches@, specs, all.take(iter.index() as int)),
    {
        let ghost done = all.take(index as int);
        let ghost next = all[index as int];
        assert(all.take(index + 1) =~= done.push(next));
        match run_entry(
            &mut export,
            &mut batches,
            entry,
            Ghost(specs),
            Ghost(done),
            Ghost(next),
        ) {
            Ok(_) => {},
            Err(error) => {
                proof {
                    lemma_error_persists(specs, all, index + 1);
                }
                return Err((index, error));
            },
        }
        index += 1;
    }
    assert(all.take(all.len() as int) =~= all);
    Ok(finish_run(export, batches, Ghost(specs), Ghost(all)))
}

/// The batches of a submissions archive, and the counts; or the number of the entry that
/// stopped the export, and why. An error on its own where the bytes are no archive.
pub fn write_submissions_metadata(submissions_zip: Vec<u8>, columns: Vec<ColumnSpec>) -> (export:
    Result<
        Result<(Vec<ColumnBatch>, ConstructSubmissionsMetadataStats), (usize, MetadataError)>,
        zip::result::ZipError,
    >)
    ensures
        match export {
            Ok(export) => archive::zip_entries(submissions_zip@) is Ok && is_export(
                metadata_columns::specs_view(columns@),
                archive::zip_entries(submissions_zip@)->Ok_0,
                export,
            ),
            Err(error) => archive::zip_entries(submissions_zip@) == Err::<
                Seq<EntryView>,
                Seq<Seq<char>>,
            >(archive::zip_error_words(error)),
        },
{
    let mut archive = match SubmissionsArchive::open(submissions_zip) {
        Ok(archive) => archive,
        Err(error) => return Err(error),
    };
    let ghost specs = metadata_columns::specs_view(columns@);
    let ghost all = archive@;
    let len = archive.len();
    let mut export = MetadataExport::new(columns);
    let mut batches: Vec<ColumnBatch> = Vec::new();
    let mut index: usize = 0;
    assert(all.take(0) =~= Seq::empty());
    while index < len
        invariant
            index <= len,
            archive@ == all,
            all.len() == len,
            archive::zip_entries(submissions_zip@) == Ok::<Seq<EntryView>, Seq<Seq<char>>>(all),
            specs == metadata_columns::specs_view(columns@),
            is_run(export, batches@, specs, all.take(index as int)),
        decreases len - index,
    {
        let ghost done = all.take(index as int);
        let ghost next = all[index as int];
        assert(all.take(index + 1) =~= done.push(next));
        let entry = archive.entry(index);
        match run_entry(
            &mut export,
            &mut batches,
            entry,
            Ghost(specs),
            Ghost(done),
            Ghost(next),
        ) {
            Ok(_) => {},
            Err(error) => {
                proof {
                    lemma_error_persists(specs, all, index + 1);
                }
                return Ok(Err((index, error)));
            },
        }
        index += 1;
    }
    assert(all.take(index as int) =~= all);
    Ok(Ok(finish_run(export, batches, Ghost(specs), Ghost(all))))
}

/// A batch that is handed out has the columns of the export, with a value in each
/// for every filing, and holds at least as many filings as a batch is meant to.
proof fn lemma_handed_out(state: ExportView, entry: EntryView)
    requires
        state.is_valid(),
    ensures
        match state.add(entry) {
            Ok((next, Some(batch))) => {
                &&& batch.has_kinds(state.columns)
                &&& batch.is_rectangular()
                &&& batch.ciks.len() >= BATCH_TARGET_ROWS
            },
            _ => true,
        },
{
}

/// How many filings the batches hold.
pub open spec fn filings_in(batches: Seq<BatchView>) -> nat
    decreases batches.len(),
{
    if batches.len() == 0 {
        0
    } else {
        filings_in(batches.drop_last()) + batches.last().ciks.len()
    }
}

/// How many of the entries hold filings.
pub open spec fn files_in(entries: Seq<EntryView>) -> nat
    decreases entries.len(),
{
    if entries.len() == 0 {
        0
    } else {
        files_in(entries.drop_last()) + match entries.last() {
            EntryView::File { name, .. } => if "CIK"@.is_prefix_of(name) {
                1nat
            } else {
                0
            },
            EntryView::Unreadable(_) => 0,
        }
    }
}

/// The filings of an entry.
pub open spec fn rows_of(columns: Seq<ColumnSpecView>, entry: EntryView) -> Option<FileRows> {
    match entry {
        EntryView::File { name, contents: Ok(bytes) } => if "CIK"@.is_prefix_of(name) {
            match metadata_batch::file_rows(
                name,
                json::parsed_json(bytes),
                metadata_columns::names_of(columns),
            ) {
                Ok(file) => Some(file),
                Err(_) => None,
            }
        } else {
            None
        },
        _ => None,
    }
}

/// The filers' numbers of all filings in the entries, one for every filing.
pub open spec fn archive_ciks(columns: Seq<ColumnSpecView>, entries: Seq<EntryView>) -> Seq<u64>
    decreases entries.len(),
{
    if entries.len() == 0 {
        Seq::empty()
    } else {
        archive_ciks(columns, entries.drop_last()) + match rows_of(columns, entries.last()) {
            Some(file) => Seq::new(file.rows, |i: int| file.cik),
            None => Seq::empty(),
        }
    }
}

/// The cells of a column of all filings in the entries.
pub open spec fn archive_cells(
    columns: Seq<ColumnSpecView>,
    entries: Seq<EntryView>,
    k: int,
) -> Seq<CellView>
    decreases entries.len(),
{
    if entries.len() == 0 {
        Seq::empty()
    } else {
        archive_cells(columns, entries.drop_last(), k) + match rows_of(columns, entries.last()) {
            Some(file) => file.cells[k],
            None => Seq::empty(),
        }
    }
}

/// The filers' numbers in the batches, one batch after the other.
pub open spec fn batch_ciks(batches: Seq<BatchView>) -> Seq<u64>
    decreases batches.len(),
{
    if batches.len() == 0 {
        Seq::empty()
    } else {
        batch_ciks(batches.drop_last()) + batches.last().ciks
    }
}

/// The values of two columns of one kind, one behind the other.
pub open spec fn joined(first: ColumnView, second: ColumnView) -> ColumnView {
    match (first, second) {
        (ColumnView::Utf8(a), ColumnView::Utf8(b)) => ColumnView::Utf8(a + b),
        (ColumnView::UInt64(a), ColumnView::UInt64(b)) => ColumnView::UInt64(a + b),
        (ColumnView::Boolean(a), ColumnView::Boolean(b)) => ColumnView::Boolean(a + b),
        _ => first,
    }
}

/// The values of a column in the batches, one batch after the other.
pub open spec fn batch_values(
    columns: Seq<ColumnSpecView>,
    batches: Seq<BatchView>,
    k: int,
) -> ColumnView
    decreases batches.len(),
{
    if batches.len() == 0 {
        columns::empty_column(columns[k].kind)
    } else {
        joined(batch_values(columns, batches.drop_last(), k), batches.last().columns[k])
    }
}

/// What holds of a run: the export is valid, no file was skipped, and the counts
/// are those of the batches and of the entries.
pub open spec fn run_is_counted(
    columns: Seq<ColumnSpecView>,
    entries: Seq<EntryView>,
    current: RunView,
) -> bool {
    &&& current.state.is_valid()
    &&& current.state.columns == columns
    &&& current.state.files_processed == files_in(entries)
    &&& current.state.files_skipped == 0
    &&& current.state.filings_written == filings_in(current.batches)
        + current.state.buffer.ciks.len()
    &&& current.state.batches_written == current.batches.len()
    &&& forall|i: int|
        0 <= i < current.batches.len() ==> {
            &&& (#[trigger] current.batches[i]).has_kinds(columns)
            &&& current.batches[i].is_rectangular()
            &&& current.batches[i].ciks.len() >= BATCH_TARGET_ROWS
        }
}

proof fn lemma_run_is_counted(columns: Seq<ColumnSpecView>, entries: Seq<EntryView>)
    ensures
        match run(columns, entries) {
            Ok(current) => run_is_counted(columns, entries, current),
            Err(_) => true,
        },
    decreases entries.len(),
{
    if entries.len() > 0 {
        lemma_run_is_counted(columns, entries.drop_last());
        if let Ok(before) = run(columns, entries.drop_last()) {
            let entry = entries.last();
            lemma_handed_out(before.state, entry);
            if let Ok((state, batch)) = before.state.add(entry) {
                let after = with_batch(before.batches, batch);
                if batch is Some {
                    assert(after.drop_last() =~= before.batches);
                }
            }
        }
    }
}

/// A finished run has written every filing that it counted, once; there are as many
/// batches as it counted, none of them empty, each with the columns that were asked
/// for and a value in each for every filing, and all but the last at least as large
/// as a batch is meant to be; and every entry that holds filings was processed.
pub proof fn law_counts_are_those_of_the_batches(
    columns: Seq<ColumnSpecView>,
    entries: Seq<EntryView>,
)
    requires
        run(columns, entries) is Ok,
    ensures
        ({
            let done = run(columns, entries)->Ok_0.finished();
            &&& done.state.filings_written == filings_in(done.batches)
            &&& done.state.batches_written == done.batches.len()
            &&& done.state.files_processed == files_in(entries)
            &&& done.state.files_skipped == 0
            &&& done.state.buffer.ciks.len() == 0
            &&& forall|i: int|
                0 <= i < done.batches.len() ==> {
                    &&& (#[trigger] done.batches[i]).has_kinds(columns)
                    &&& done.batches[i].is_rectangular()
                    &&& done.batches[i].ciks.len() > 0
                    &&& i + 1 < done.batches.len() ==> done.batches[i].ciks.len()
                        >= BATCH_TARGET_ROWS
                }
        }),
{
    lemma_run_is_counted(columns, entries);
    let before = run(columns, entries)->Ok_0;
    let done = before.finished();
    if before.state.pending() is Some {
        assert(done.batches.drop_last() =~= before.batches);
    }
}

proof fn lemma_joined_kind(first: ColumnView, second: ColumnView)
    requires
        first.kind() == second.kind(),
    ensures
        joined(first, second).kind() == first.kind(),
{
}

proof fn lemma_append_kind(column: ColumnView, cells: Seq<CellView>)
    ensures
        column.append(cells).kind() == column.kind(),
{
}

proof fn lemma_joined_empty(column: ColumnView)
    ensures
        joined(column, columns::empty_column(column.kind())) == column,
{
    match column {
        ColumnView::Utf8(a) => assert(a + Seq::empty() =~= a),
        ColumnView::UInt64(a) => assert(a + Seq::empty() =~= a),
        ColumnView::Boolean(a) => assert(a + Seq::empty() =~= a),
    }
}

proof fn lemma_joined_append(first: ColumnView, second: ColumnView, cells: Seq<CellView>)
    requires
        first.kind() == second.kind(),
    ensures
        joined(first, second.append(cells)) == joined(first, second).append(cells),
{
    let texts = columns::cell_texts(cells);
    let numbers = Seq::new(cells.len(), |i: int| columns::cell_u64(cells[i]));
    let truths = Seq::new(cells.len(), |i: int| columns::cell_bool(cells[i]));
    match (first, second) {
        (ColumnView::Utf8(a), ColumnView::Utf8(b)) => {
            assert(a + (b + texts) =~= a + b + texts);
        },
        (ColumnView::UInt64(a), ColumnView::UInt64(b)) => {
            assert(a + (b + numbers) =~= a + b + numbers);
        },
        (ColumnView::Boolean(a), ColumnView::Boolean(b)) => {
            assert(a + (b + truths) =~= a + b + truths);
        },
        _ => {},
    }
}

proof fn lemma_append_twice(column: ColumnView, first: Seq<CellView>, second: Seq<CellView>)
    ensures
        column.append(first).append(second) == column.append(first + second),
{
    let both = first + second;
    match column {
        ColumnView::Utf8(a) => {
            assert(a + columns::cell_texts(first) + columns::cell_texts(second)
                =~= a + columns::cell_texts(both));
        },
        ColumnView::UInt64(a) => {
            assert(a + Seq::new(first.len(), |i: int| columns::cell_u64(first[i])) + Seq::new(
                second.len(),
                |i: int| columns::cell_u64(second[i]),
            ) =~= a + Seq::new(both.len(), |i: int| columns::cell_u64(both[i])));
        },
        ColumnView::Boolean(a) => {
            assert(a + Seq::new(first.len(), |i: int| columns::cell_bool(first[i])) + Seq::new(
                second.len(),
                |i: int| columns::cell_bool(second[i]),
            ) =~= a + Seq::new(both.len(), |i: int| columns::cell_bool(both[i])));
        },
    }
}

proof fn lemma_run_keeps_order(columns: Seq<ColumnSpecView>, entries: Seq<EntryView>, k: int)
    requires
        0 <= k < columns.len(),
    ensures
        match run(columns, entries) {
            Ok(current) => {
                &&& batch_values(columns, current.batches, k).kind() == columns[k].kind
                &&& batch_ciks(current.batches) + current.state.buffer.ciks == archive_ciks(
                    columns,
                    entries,
                )
                &&& joined(
                    batch_values(columns, current.batches, k),
                    current.state.buffer.columns[k],
                ) == columns::empty_column(columns[k].kind).append(
                    archive_cells(columns, entries, k),
                )
            },
            Err(_) => true,
        },
    decreases entries.len(),
{
    let empty = columns::empty_column(columns[k].kind);
    lemma_run_is_counted(columns, entries);
    if entries.len() == 0 {
        lemma_joined_empty(empty);
        columns::lemma_append_nothing(empty);
        assert(Seq::<u64>::empty() + Seq::<u64>::empty() =~= Seq::<u64>::empty());
    } else {
        lemma_run_keeps_order(columns, entries.drop_last(), k);
        lemma_run_is_counted(columns, entries.drop_last());
        if let Ok(before) = run(columns, entries.drop_last()) {
            let entry = entries.last();
            if let Ok((state, batch)) = before.state.add(entry) {
                let earlier_cells = archive_cells(columns, entries.drop_last(), k);
                let earlier_ciks = archive_ciks(columns, entries.drop_last());
                let written = batch_values(columns, before.batches, k);
                match rows_of(columns, entry) {
                    None => {
                        assert(earlier_cells + Seq::empty() =~= earlier_cells);
                        assert(earlier_ciks + Seq::empty() =~= earlier_ciks);
                    },
                    Some(file) => {
                        let column = before.state.buffer.columns[k];
                        let appended = before.state.buffer.append(file, 0);
                        let ciks = Seq::new(file.rows, |i: int| file.cik);
                        lemma_joined_append(written, column, file.cells[k]);
                        lemma_append_twice(empty, earlier_cells, file.cells[k]);
                        assert(batch_ciks(before.batches) + (before.state.buffer.ciks + ciks)
                            =~= earlier_ciks + ciks);
                        if let Some(full) = batch {
                            let after = before.batches.push(full);
                            assert(after.drop_last() =~= before.batches);
                            lemma_append_kind(column, file.cells[k]);
                            lemma_joined_kind(written, full.columns[k]);
                            lemma_joined_empty(joined(written, full.columns[k]));
                            assert(batch_ciks(after) + Seq::empty() =~= batch_ciks(after));
                        }
                    },
                }
            }
        }
    }
}

/// The batches of a finished run hold the filings of all entries in the order of the
/// archive, each under its filer's number and with the value of its cell in every
/// column.
pub proof fn law_batches_hold_the_filings_in_order(
    columns: Seq<ColumnSpecView>,
    entries: Seq<EntryView>,
    k: int,
)
    requires
        run(columns, entries) is Ok,
        0 <= k < columns.len(),
    ensures
        batch_ciks(run(columns, entries)->Ok_0.finished().batches) == archive_ciks(
            columns,
            entries,
        ),
        batch_values(columns, run(columns, entries)->Ok_0.finished().batches, k)
            == columns::empty_column(columns[k].kind).append(
            archive_cells(columns, entries, k),
        ),
{
    lemma_run_keeps_order(columns, entries, k);
    lemma_run_is_counted(columns, entries);
    let before = run(columns, entries)->Ok_0;
    let done = before.finished();
    if before.state.pending() is Some {
        assert(done.batches.drop_last() =~= before.batches);
    } else {
        let column = before.state.buffer.columns[k];
        assert(column.len() == 0);
        assert(column == columns::empty_column(column.kind())) by {
            match column {
                ColumnView::Utf8(a) => assert(a =~= Seq::empty()),
                ColumnView::UInt64(a) => assert(a =~= Seq::empty()),
                ColumnView::Boolean(a) => assert(a =~= Seq::empty()),
            }
        }
        lemma_joined_empty(batch_values(columns, before.batches, k));
        assert(batch_ciks(before.batches) + before.state.buffer.ciks =~= batch_ciks(
            before.batches,
        ));
    }
}

} // verus!
