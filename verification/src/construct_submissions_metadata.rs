//! The columnar export: the filings of the SEC submissions archive in batches, with
//! the columns that the caller asks for.
use vstd::prelude::*;

use crate::archive;
use crate::columns::BATCH_TARGET_ROWS;
use crate::json::{self, Json};
use crate::metadata_batch::{self, column_arrays, BatchView, FileRows, SubmissionBatchBuffer};
use crate::metadata_columns::{self, ColumnSpec, ColumnSpecView};
use crate::submissions::{
    self, cik_number, holds_filings, ArchiveEntry, ContentsError, EntryView, SubmissionError,
    SubmissionErrorView,
};

verus! {

#[derive(Debug, Clone, Copy, PartialEq, Eq, Structural)]
pub struct ConstructSubmissionsMetadataStats {
    pub files_processed: usize,
    pub files_skipped: usize,
    pub filings_written: usize,
    pub batches_written: usize,
}

/// The filer's number that an entry's name carries.
pub fn cik_from_filename(filename: &str) -> (cik: Result<u64, SubmissionError>)
    ensures
        match cik {
            Ok(cik) => submissions::cik_of(filename@) == Ok::<u64, SubmissionErrorView>(cik),
            Err(error) => submissions::cik_of(filename@) == Err::<u64, SubmissionErrorView>(
                error@,
            ),
        },
{
    cik_number(filename)
}

/// Why the export stopped.
#[derive(Debug)]
pub enum MetadataError {
    /// An entry of the archive could not be opened.
    UnreadableEntry(zip::result::ZipError),
    /// The contents of an entry could not be read.
    UnreadableContents(std::io::Error),
    /// The filings of an entry could not be read.
    File(SubmissionError),
    /// A count, or the text of a column, would grow past what it can hold.
    TooLarge,
}

pub enum MetadataErrorView {
    UnreadableEntry(Seq<Seq<char>>),
    UnreadableContents(Seq<Seq<char>>),
    File(SubmissionErrorView),
    TooLarge,
}

impl View for MetadataError {
    type V = MetadataErrorView;

    open spec fn view(&self) -> MetadataErrorView {
        match self {
            MetadataError::UnreadableEntry(error) => MetadataErrorView::UnreadableEntry(
                archive::zip_error_words(*error),
            ),
            MetadataError::UnreadableContents(error) => MetadataErrorView::UnreadableContents(
                archive::io_error_words(*error),
            ),
            MetadataError::File(error) => MetadataErrorView::File(error@),
            MetadataError::TooLarge => MetadataErrorView::TooLarge,
        }
    }
}

/// An export under way: the columns, the filings that no batch holds yet, and the
/// counts.
pub struct MetadataExport {
    pub columns: Vec<ColumnSpec>,
    pub buffer: SubmissionBatchBuffer,
    pub stats: ConstructSubmissionsMetadataStats,
}

pub struct ExportView {
    pub columns: Seq<ColumnSpecView>,
    pub buffer: BatchView,
    pub files_processed: nat,
    pub files_skipped: nat,
    pub filings_written: nat,
    pub batches_written: nat,
}

impl View for MetadataExport {
    type V = ExportView;

    open spec fn view(&self) -> ExportView {
        ExportView {
            columns: metadata_columns::specs_view(self.columns@),
            buffer: self.buffer@,
            files_processed: self.stats.files_processed as nat,
            files_skipped: self.stats.files_skipped as nat,
            filings_written: self.stats.filings_written as nat,
            batches_written: self.stats.batches_written as nat,
        }
    }
}

/// An export before the first entry.
pub open spec fn new_export(columns: Seq<ColumnSpecView>) -> ExportView {
    ExportView {
        columns,
        buffer: metadata_batch::empty_batch(columns),
        files_processed: 0,
        files_skipped: 0,
        filings_written: 0,
        batches_written: 0,
    }
}

impl ExportView {
    /// The buffer has the columns of the export, with a value in each for every
    /// filing; no file is in it that was not counted; and there was a file for
    /// every batch, and is one for the filings in the buffer.
    pub open spec fn is_valid(self) -> bool {
        &&& self.buffer.has_kinds(self.columns)
        &&& self.buffer.is_rectangular()
        &&& self.buffer.files <= self.files_processed
        &&& self.batches_written + (if self.buffer.ciks.len() > 0 {
            1int
        } else {
            0int
        }) <= self.files_processed
    }

    /// The counts and the columns can take the filings of a file.
    pub open spec fn fits(self, file: FileRows, json_bytes: nat) -> bool {
        &&& self.buffer.has_room(file.cells)
        &&& self.buffer.json_bytes + json_bytes <= usize::MAX
        &&& self.files_processed < usize::MAX
        &&& self.filings_written + file.rows <= usize::MAX
    }

    /// The export with the filings of a file in the buffer.
    pub open spec fn append(self, file: FileRows, json_bytes: nat) -> ExportView {
        ExportView {
            buffer: self.buffer.append(file, json_bytes),
            files_processed: self.files_processed + 1,
            filings_written: self.filings_written + file.rows,
            ..self
        }
    }

    /// The export with the filings of a file in the buffer, where they could be
    /// read and there is room for them.
    pub open spec fn append_rows(
        self,
        file: Result<FileRows, SubmissionErrorView>,
        json_bytes: nat,
    ) -> Result<ExportView, MetadataErrorView> {
        match file {
            Err(error) => Err(MetadataErrorView::File(error)),
            Ok(file) => if self.fits(file, json_bytes) {
                Ok(self.append(file, json_bytes))
            } else {
                Err(MetadataErrorView::TooLarge)
            },
        }
    }

    /// The batch that is handed out where the buffer holds filings.
    pub open spec fn pending(self) -> Option<BatchView> {
        if self.buffer.ciks.len() == 0 {
            None
        } else {
            Some(self.buffer)
        }
    }

    /// The export when that batch has been handed out. It is not counted before it has
    /// been written.
    pub open spec fn flushed(self) -> ExportView {
        if self.buffer.ciks.len() == 0 {
            self
        } else {
            ExportView { buffer: self.buffer.emptied(), ..self }
        }
    }

    /// The export when a batch that was handed out has been written.
    pub open spec fn counted(self) -> ExportView {
        ExportView { batches_written: self.batches_written + 1, ..self }
    }

    /// The export after an entry of the archive, and the batch that is then
    /// complete, if one is. The first entry that cannot be read stops the export.
    pub open spec fn add(self, entry: EntryView) -> Result<
        (ExportView, Option<BatchView>),
        MetadataErrorView,
    > {
        match entry {
            EntryView::Unreadable(words) => Err(MetadataErrorView::UnreadableEntry(words)),
            EntryView::File { name, contents } => if !"CIK"@.is_prefix_of(name) {
                Ok((self, None))
            } else {
                match contents {
                    Err(words) => Err(MetadataErrorView::UnreadableContents(words)),
                    Ok(bytes) => match self.append_rows(
                        metadata_batch::file_rows(
                            name,
                            json::parsed_json(bytes),
                            metadata_columns::names_of(self.columns),
                        ),
                        bytes.len(),
                    ) {
                        Err(error) => Err(error),
                        Ok(next) => if next.buffer.ciks.len() >= BATCH_TARGET_ROWS {
                            Ok((next.flushed(), next.pending()))
                        } else {
                            Ok((next, None))
                        },
                    },
                }
            },
        }
    }
}

/// How many filings of a file were added, or why none were and nothing changed.
pub open spec fn is_appended(
    before: ExportView,
    after: ExportView,
    file: Result<FileRows, SubmissionErrorView>,
    json_bytes: nat,
    rows: Result<usize, MetadataError>,
) -> bool {
    match rows {
        Ok(rows) => before.append_rows(file, json_bytes) == Ok::<ExportView, MetadataErrorView>(
            after,
        ) && file->Ok_0.rows == rows,
        Err(error) => before.append_rows(file, json_bytes) == Err::<ExportView, MetadataErrorView>(
            error@,
        ) && after == before,
    }
}

pub open spec fn batch_option(batch: Option<SubmissionBatchBuffer>) -> Option<BatchView> {
    match batch {
        Some(batch) => Some(batch@),
        None => None,
    }
}

impl MetadataExport {
    /// An export before the first entry.
    pub fn new(columns: Vec<ColumnSpec>) -> (export: Self)
        ensures
            export@ == new_export(metadata_columns::specs_view(columns@)),
            export@.is_valid(),
    {
        let buffer = SubmissionBatchBuffer::new(columns.as_slice());
        MetadataExport {
            columns,
            buffer,
            stats: ConstructSubmissionsMetadataStats {
                files_processed: 0,
                files_skipped: 0,
                filings_written: 0,
                batches_written: 0,
            },
        }
    }

    /// Adds the filings in a document to the buffer and counts them.
    pub fn append_document(
        &mut self,
        filename: &str,
        cik: u64,
        data: &Json,
        json_bytes: usize,
    ) -> (rows: Result<usize, MetadataError>)
        requires
            old(self)@.is_valid(),
        ensures
            final(self)@.is_valid(),
            is_appended(
                old(self)@,
                final(self)@,
                metadata_batch::document_rows(
                    filename@,
                    cik,
                    data@,
                    metadata_columns::names_of(old(self)@.columns),
                ),
                json_bytes as nat,
                rows,
            ),
    {
        let (rows, arrays) = match column_arrays(filename, cik, data, self.columns.as_slice()) {
            Ok(arrays) => arrays,
            Err(error) => return Err(MetadataError::File(error)),
        };
        let ghost file = metadata_batch::rows_view(cik, rows, arrays@);
        let fits = self.buffer.has_room_for(&arrays, rows);
        if !fits || self.buffer.json_bytes > usize::MAX - json_bytes || self.stats.files_processed
            == usize::MAX || self.stats.filings_written > usize::MAX - rows {
            return Err(MetadataError::TooLarge);
        }
        self.buffer.append_rows(cik, rows, &arrays, json_bytes);
        self.stats.files_processed += 1;
        self.stats.filings_written += rows;
        proof {
            lemma_append_is_valid(old(self)@, file, json_bytes as nat);
        }
        Ok(rows)
    }

    /// Adds the filings in an entry with that name and those contents to the buffer
    /// and counts them.
    pub fn append_submission_bytes(&mut self, filename: &str, bytes: &[u8]) -> (rows: Result<
        usize,
        MetadataError,
    >)
        requires
            old(self)@.is_valid(),
        ensures
            final(self)@.is_valid(),
            is_appended(
                old(self)@,
                final(self)@,
                metadata_batch::file_rows(
                    filename@,
                    json::parsed_json(bytes@),
                    metadata_columns::names_of(old(self)@.columns),
                ),
                bytes@.len(),
                rows,
            ),
    {
        let cik = match cik_from_filename(filename) {
            Ok(cik) => cik,
            Err(error) => return Err(MetadataError::File(error)),
        };
        match Json::parse(bytes) {
            Ok(data) => self.append_document(filename, cik, &data, bytes.len()),
            Err(error) => Err(
                MetadataError::File(SubmissionError::InvalidJson(ContentsError::Json(error))),
            ),
        }
    }

    /// Hands out the filings in the buffer as a batch, if there are any.
    pub fn flush_batch(&mut self) -> (batch: Option<SubmissionBatchBuffer>)
        requires
            old(self)@.is_valid(),
        ensures
            final(self)@.is_valid(),
            final(self)@ == old(self)@.flushed(),
            batch_option(batch) == old(self)@.pending(),
            batch is Some ==> final(self)@.counted().is_valid(),
    {
        if self.buffer.is_empty() {
            return None;
        }
        Some(self.buffer.take())
    }

    /// Counts a batch that was handed out and has been written.
    pub fn batch_written(&mut self)
        requires
            old(self)@.is_valid(),
            old(self)@.counted().is_valid(),
        ensures
            final(self)@.is_valid(),
            final(self)@ == old(self)@.counted(),
    {
        self.stats.batches_written += 1;
    }

    /// Takes an entry of the archive, and hands out a batch when there are enough
    /// filings for one.
    pub fn add_entry(&mut self, entry: ArchiveEntry) -> (batch: Result<
        Option<SubmissionBatchBuffer>,
        MetadataError,
    >)
        requires
            old(self)@.is_valid(),
        ensures
            final(self)@.is_valid(),
            match batch {
                Ok(batch) => {
                    &&& old(self)@.add(entry@) == Ok::<
                        (ExportView, Option<BatchView>),
                        MetadataErrorView,
                    >((final(self)@, batch_option(batch)))
                    &&& batch is Some ==> final(self)@.counted().is_valid()
                },
                Err(error) => final(self)@ == old(self)@ && old(self)@.add(entry@) == Err::<
                    (ExportView, Option<BatchView>),
                    MetadataErrorView,
                >(error@),
            },
    {
        match entry {
            ArchiveEntry::Unreadable(error) => Err(MetadataError::UnreadableEntry(error)),
            ArchiveEntry::File { name, contents } => {
                if !holds_filings(name.as_str()) {
                    return Ok(None);
                }
                let bytes = match contents {
                    Ok(bytes) => bytes,
                    Err(error) => return Err(MetadataError::UnreadableContents(error)),
                };
                match self.append_submission_bytes(name.as_str(), bytes.as_slice()) {
                    Err(error) => Err(error),
                    Ok(_) => if self.buffer.len() >= BATCH_TARGET_ROWS {
                        Ok(self.flush_batch())
                    } else {
                        Ok(None)
                    },
                }
            },
        }
    }
}

/// Appending a file keeps an export valid.
proof fn lemma_append_is_valid(state: ExportView, file: FileRows, json_bytes: nat)
    requires
        state.is_valid(),
        file.cells.len() == state.columns.len(),
        forall|k: int| 0 <= k < file.cells.len() ==> (#[trigger] file.cells[k]).len() == file.rows,
    ensures
        state.append(file, json_bytes).is_valid(),
{
}

} // verus!
