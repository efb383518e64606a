//! The CSV export: one line per filing of the SEC submissions archive.
use vstd::prelude::*;

use crate::archive::{self, SubmissionsArchive};
use crate::json::{self, Cell, Json, JsonView};
use crate::submissions::{
    self, cell_str, cik_number, field_array, filings_data, holds_filings, ArchiveEntry,
    ContentsError, EntryView, SubmissionError, SubmissionErrorView,
};
use crate::text::{self, u64_to_text};

verus! {

#[derive(Debug, Clone, Copy, PartialEq, Eq, Structural)]
pub struct ConstructSubmissionsDataStats {
    pub files_processed: usize,
    pub files_skipped: usize,
    pub filings_written: usize,
}

/// Why an entry was left out of the export.
#[derive(Debug)]
pub enum SkipReason {
    /// The entry could not be opened.
    UnreadableEntry(zip::result::ZipError),
    /// The filings of the file of that name could not be read.
    File { name: String, error: SubmissionError },
}

/// What the export does with an entry.
#[derive(Debug)]
pub enum EntryOutcome {
    /// The entry holds no filings.
    Ignored,
    /// These records are written.
    Written(Vec<[String; 4]>),
    Skipped(SkipReason),
}

pub enum SkipReasonView {
    UnreadableEntry(Seq<Seq<char>>),
    File { name: Seq<char>, error: SubmissionErrorView },
}

pub enum OutcomeView {
    Ignored,
    Written(Seq<Seq<Seq<char>>>),
    Skipped(SkipReasonView),
}

impl View for SkipReason {
    type V = SkipReasonView;

    open spec fn view(&self) -> SkipReasonView {
        match self {
            SkipReason::UnreadableEntry(error) => SkipReasonView::UnreadableEntry(
                archive::zip_error_words(*error),
            ),
            SkipReason::File { name, error } => SkipReasonView::File {
                name: name@,
                error: error@,
            },
        }
    }
}

impl View for EntryOutcome {
    type V = OutcomeView;

    open spec fn view(&self) -> OutcomeView {
        match self {
            EntryOutcome::Ignored => OutcomeView::Ignored,
            EntryOutcome::Written(records) => OutcomeView::Written(records_view(records@)),
            EntryOutcome::Skipped(reason) => OutcomeView::Skipped(reason@),
        }
    }
}

/// The fields of a record.
pub open spec fn record_view(record: [String; 4]) -> Seq<Seq<char>> {
    seq![record@[0]@, record@[1]@, record@[2]@, record@[3]@]
}

pub open spec fn records_view(records: Seq<[String; 4]>) -> Seq<Seq<Seq<char>>> {
    Seq::new(records.len(), |i: int| record_view(records[i]))
}

/// The records of the filings in a document: the filer's number, the accession
/// number, the filing date and the form.
pub open spec fn document_records(filename: Seq<char>, cik: u64, data: JsonView) -> Result<
    Seq<Seq<Seq<char>>>,
    SubmissionErrorView,
> {
    match submissions::filings_of(filename, data) {
        None => Err(SubmissionErrorView::MissingRecentFilings),
        Some(filings) => {
            let accessions = submissions::field_cells(filings, "accessionNumber"@);
            let dates = submissions::field_cells(filings, "filingDate"@);
            let forms = submissions::field_cells(filings, "form"@);
            if accessions is None {
                Err(SubmissionErrorView::MissingArrayField("accessionNumber"@))
            } else if dates is None {
                Err(SubmissionErrorView::MissingArrayField("filingDate"@))
            } else if forms is None {
                Err(SubmissionErrorView::MissingArrayField("form"@))
            } else if dates->0.len() < accessions->0.len() || forms->0.len()
                < accessions->0.len() {
                Err(SubmissionErrorView::MismatchedLengths)
            } else {
                Ok(
                    Seq::new(
                        accessions->0.len(),
                        |i: int|
                            seq![
                                text::decimal(cik as nat),
                                submissions::cell_text(accessions->0[i]),
                                submissions::cell_text(dates->0[i]),
                                submissions::cell_text(forms->0[i]),
                            ],
                    ),
                )
            }
        },
    }
}

/// The records of an entry of that name that holds that document, if it holds one.
pub open spec fn file_records(filename: Seq<char>, data: Result<JsonView, Seq<Seq<char>>>) -> Result<
    Seq<Seq<Seq<char>>>,
    SubmissionErrorView,
> {
    match submissions::cik_of(filename) {
        Err(error) => Err(error),
        Ok(cik) => match data {
            Err(words) => Err(SubmissionErrorView::InvalidJson(words)),
            Ok(data) => document_records(filename, cik, data),
        },
    }
}

/// The document in what was read of an entry.
pub open spec fn read_document(contents: Result<Seq<u8>, Seq<Seq<char>>>) -> Result<
    JsonView,
    Seq<Seq<char>>,
> {
    match contents {
        Ok(bytes) => json::parsed_json(bytes),
        Err(words) => Err(words),
    }
}

/// What the export does with an entry: it ignores a name that does not start
/// with `CIK`, writes the records of a file that it can read, and skips the rest.
pub open spec fn outcome_of(entry: EntryView) -> OutcomeView {
    match entry {
        EntryView::Unreadable(words) => OutcomeView::Skipped(SkipReasonView::UnreadableEntry(words)),
        EntryView::File { name, contents } => if !"CIK"@.is_prefix_of(name) {
            OutcomeView::Ignored
        } else {
            match file_records(name, read_document(contents)) {
                Ok(records) => OutcomeView::Written(records),
                Err(error) => OutcomeView::Skipped(SkipReasonView::File { name, error }),
            }
        },
    }
}

/// A result of reading an entry, as the contracts speak of it.
pub open spec fn result_view(result: Result<Vec<[String; 4]>, SubmissionError>) -> Result<
    Seq<Seq<Seq<char>>>,
    SubmissionErrorView,
> {
    match result {
        Ok(records) => Ok(records_view(records@)),
        Err(error) => Err(error@),
    }
}

/// A character that a CSV field cannot hold unless it is quoted.
pub open spec fn is_csv_special(c: char) -> bool {
    c == ',' || c == '"' || c == '\r' || c == '\n'
}

/// The characters with every quotation mark doubled.
pub open spec fn doubled_quotes(s: Seq<char>) -> Seq<char>
    decreases s.len(),
{
    if s.len() == 0 {
        Seq::empty()
    } else if s.last() == '"' {
        doubled_quotes(s.drop_last()) + seq!['"', '"']
    } else {
        doubled_quotes(s.drop_last()).push(s.last())
    }
}

/// A field of a CSV line, in quotation marks only where it needs them.
pub open spec fn csv_field(field: Seq<char>) -> Seq<char> {
    if exists|i: int| 0 <= i < field.len() && is_csv_special(#[trigger] field[i]) {
        seq!['"'] + doubled_quotes(field) + seq!['"']
    } else {
        field
    }
}

/// The fields with a comma between one and the next.
pub open spec fn csv_fields(fields: Seq<Seq<char>>) -> Seq<char>
    decreases fields.len(),
{
    if fields.len() == 0 {
        Seq::empty()
    } else if fields.len() == 1 {
        csv_field(fields[0])
    } else {
        csv_fields(fields.drop_last()).push(',') + csv_field(fields.last())
    }
}

/// The bytes of a record's line.
pub open spec fn csv_line(fields: Seq<Seq<char>>) -> Seq<u8> {
    vstd::utf8::encode_utf8(csv_fields(fields).push('\n'))
}

/// The bytes of the records' lines, one after the other.
pub open spec fn csv_lines(records: Seq<Seq<Seq<char>>>) -> Seq<u8>
    decreases records.len(),
{
    if records.len() == 0 {
        Seq::empty()
    } else {
        csv_lines(records.drop_last()) + csv_line(records.last())
    }
}

/// The names of the columns.
pub open spec fn csv_header_fields() -> Seq<Seq<char>> {
    seq!["cik"@, "accessionNumber"@, "filingDate"@, "form"@]
}

pub open spec fn outcome_lines(outcome: OutcomeView) -> Seq<u8> {
    match outcome {
        OutcomeView::Written(records) => csv_lines(records),
        _ => Seq::empty(),
    }
}

/// The CSV file of an archive with those entries.
pub open spec fn csv_file(entries: Seq<EntryView>) -> Seq<u8>
    decreases entries.len(),
{
    if entries.len() == 0 {
        csv_line(csv_header_fields())
    } else {
        csv_file(entries.drop_last()) + outcome_lines(outcome_of(entries.last()))
    }
}

/// How many of the entries are written.
pub open spec fn entries_written(entries: Seq<EntryView>) -> nat {
    entries.filter(|entry: EntryView| outcome_of(entry) is Written).len()
}

/// How many of the entries are skipped.
pub open spec fn entries_skipped(entries: Seq<EntryView>) -> nat {
    entries.filter(|entry: EntryView| outcome_of(entry) is Skipped).len()
}

/// How many of the entries are ignored.
pub open spec fn entries_ignored(entries: Seq<EntryView>) -> nat {
    entries.filter(|entry: EntryView| outcome_of(entry) is Ignored).len()
}

pub open spec fn records_in(outcome: OutcomeView) -> nat {
    match outcome {
        OutcomeView::Written(records) => records.len(),
        _ => 0,
    }
}

/// How many records the entries give.
pub open spec fn records_written(entries: Seq<EntryView>) -> nat
    decreases entries.len(),
{
    if entries.len() == 0 {
        0
    } else {
        records_written(entries.drop_last()) + records_in(outcome_of(entries.last()))
    }
}

/// The filer's number that an entry's name carries, in decimal without leading
/// zeros.
pub fn cik_from_filename(filename: &str) -> (cik: Result<String, SubmissionError>)
    ensures
        match cik {
            Ok(text) => submissions::cik_of(filename@) is Ok && text@
                == text::decimal(submissions::cik_of(filename@)->Ok_0 as nat),
            Err(error) => submissions::cik_of(filename@) == Err::<u64, SubmissionErrorView>(
                error@,
            ),
        },
{
    match cik_number(filename) {
        Ok(cik) => Ok(u64_to_text(cik)),
        Err(error) => Err(error),
    }
}

/// A cell as the text of a CSV field.
pub fn csv_value(value: &Cell) -> (text: String)
    ensures
        text@ == submissions::cell_text(value@),
{
    cell_str(value).to_owned()
}

/// The records of the filings in a document.
pub fn submission_records(filename: &str, cik: u64, data: &Json) -> (records: Result<
    Vec<[String; 4]>,
    SubmissionError,
>)
    ensures
        result_view(records) == document_records(filename@, cik, data@),
{
    let filings = match filings_data(filename, data) {
        Ok(filings) => filings,
        Err(error) => return Err(error),
    };
    let accessions = match field_array(filings, "accessionNumber") {
        Ok(cells) => cells,
        Err(error) => return Err(error),
    };
    let filing_dates = match field_array(filings, "filingDate") {
        Ok(cells) => cells,
        Err(error) => return Err(error),
    };
    let forms = match field_array(filings, "form") {
        Ok(cells) => cells,
        Err(error) => return Err(error),
    };
    if filing_dates.len() < accessions.len() || forms.len() < accessions.len() {
        return Err(SubmissionError::MismatchedLengths);
    }
    let cik_text = u64_to_text(cik);
    let ghost expected = document_records(filename@, cik, data@)->Ok_0;
    let mut records: Vec<[String; 4]> = Vec::with_capacity(accessions.len());
    let mut index: usize = 0;
    while index < accessions.len()
        invariant
            index <= accessions.len(),
            accessions.len() <= filing_dates.len(),
            accessions.len() <= forms.len(),
            cik_text@ == text::decimal(cik as nat),
            expected.len() == accessions.len(),
            forall|i: int|
                0 <= i < accessions.len() ==> #[trigger] expected[i] == seq![
                    text::decimal(cik as nat),
                    submissions::cell_text(accessions@[i]@),
                    submissions::cell_text(filing_dates@[i]@),
                    submissions::cell_text(forms@[i]@),
                ],
            records_view(records@) == expected.take(index as int),
        decreases accessions.len() - index,
    {
        let record = [
            cik_text.clone(),
            csv_value(&accessions[index]),
            csv_value(&filing_dates[index]),
            csv_value(&forms[index]),
        ];
        assert(record_view(record) =~= expected[index as int]);
        let ghost before = records@;
        records.push(record);
        assert(records_view(records@) =~= records_view(before).push(record_view(record)));
        assert(expected.take(index + 1) =~= expected.take(index as int).push(
            expected[index as int],
        ));
        index += 1;
    }
    assert(expected.take(index as int) =~= expected);
    Ok(records)
}

/// The records of the filings in an entry with that name and those contents.
pub fn process_submission_file(filename: &str, contents: &[u8]) -> (records: Result<
    Vec<[String; 4]>,
    SubmissionError,
>)
    ensures
        result_view(records) == file_records(filename@, json::parsed_json(contents@)),
{
    let cik = match cik_number(filename) {
        Ok(cik) => cik,
        Err(error) => return Err(error),
    };
    match Json::parse(contents) {
        Ok(data) => submission_records(filename, cik, &data),
        Err(error) => Err(SubmissionError::InvalidJson(ContentsError::Json(error))),
    }
}

/// What the export does with an entry.
pub fn process_entry(entry: ArchiveEntry) -> (outcome: EntryOutcome)
    ensures
        outcome@ == outcome_of(entry@),
{
    match entry {
        ArchiveEntry::Unreadable(error) => EntryOutcome::Skipped(
            SkipReason::UnreadableEntry(error),
        ),
        ArchiveEntry::File { name, contents } => {
            if !holds_filings(name.as_str()) {
                return EntryOutcome::Ignored;
            }
            let records = match contents {
                Ok(bytes) => process_submission_file(name.as_str(), bytes.as_slice()),
                Err(unread) => match cik_number(name.as_str()) {
                    Ok(_) => Err(SubmissionError::InvalidJson(ContentsError::Read(unread))),
                    Err(error) => Err(error),
                },
            };
            match records {
                Ok(records) => EntryOutcome::Written(records),
                Err(error) => EntryOutcome::Skipped(SkipReason::File { name, error }),
            }
        },
    }
}

/// Calls `csv::Writer::write_record` on a writer that keeps its output. Trusted:
/// the fields are written with a comma between them and a line feed at the end;
/// one that holds a comma, a quotation mark, a carriage return or a line feed
/// stands in quotation marks, with those in it doubled; writing to memory does
/// not fail.
#[verifier::external_body]
fn csv_record(record: &[String; 4]) -> (line: Option<Vec<u8>>)
    ensures
        line is Some,
        line->0@ == csv_line(record_view(*record)),
{
    let mut writer = csv::Writer::from_writer(Vec::new());
    writer.write_record(record).ok()?;
    writer.into_inner().ok()
}

/// The first line of the export.
pub fn csv_header() -> (line: Vec<u8>)
    ensures
        line@ == csv_line(csv_header_fields()),
{
    let header = [
        "cik".to_owned(),
        "accessionNumber".to_owned(),
        "filingDate".to_owned(),
        "form".to_owned(),
    ];
    assert(record_view(header) =~= csv_header_fields());
    csv_record(&header).unwrap()
}

proof fn lemma_csv_line_not_empty(fields: Seq<Seq<char>>)
    ensures
        csv_line(fields).len() > 0,
{
}

proof fn lemma_csv_lines_length(records: Seq<Seq<Seq<char>>>)
    ensures
        csv_lines(records).len() >= records.len(),
    decreases records.len(),
{
    if records.len() > 0 {
        lemma_csv_lines_length(records.drop_last());
        lemma_csv_line_not_empty(records.last());
    }
}

/// The lines of the records.
pub fn encode_records(records: &Vec<[String; 4]>) -> (lines: Vec<u8>)
    ensures
        lines@ == csv_lines(records_view(records@)),
{
    let ghost all = records_view(records@);
    let mut lines: Vec<u8> = Vec::new();
    let mut i: usize = 0;
    while i < records.len()
        invariant
            i <= records.len(),
            all == records_view(records@),
            lines@ == csv_lines(all.take(i as int)),
        decreases records.len() - i,
    {
        let mut line = csv_record(&records[i]).unwrap();
        lines.append(&mut line);
        proof {
            let next = all.take(i + 1);
            assert(next.drop_last() =~= all.take(i as int));
            assert(next.last() == record_view(records@[i as int]));
        }
        i += 1;
    }
    assert(all.take(i as int) =~= all);
    lines
}

impl ConstructSubmissionsDataStats {
    /// The counts before the first entry.
    pub fn new() -> (stats: Self)
        ensures
            stats.files_processed == 0,
            stats.files_skipped == 0,
            stats.filings_written == 0,
    {
        ConstructSubmissionsDataStats { files_processed: 0, files_skipped: 0, filings_written: 0 }
    }

    /// Counts an entry and the records that it gave.
    pub fn count(&mut self, outcome: &EntryOutcome)
        requires
            outcome@ is Written ==> old(self).files_processed < usize::MAX,
            outcome@ is Skipped ==> old(self).files_skipped < usize::MAX,
            old(self).filings_written + records_in(outcome@) <= usize::MAX,
        ensures
            final(self).files_processed == old(self).files_processed + if outcome@ is Written {
                1int
            } else {
                0int
            },
            final(self).files_skipped == old(self).files_skipped + if outcome@ is Skipped {
                1int
            } else {
                0int
            },
            final(self).filings_written == old(self).filings_written + records_in(outcome@),
    {
        match outcome {
            EntryOutcome::Ignored => {},
            EntryOutcome::Written(records) => {
                self.filings_written += records.len();
                self.files_processed += 1;
            },
            EntryOutcome::Skipped(_) => {
                self.files_skipped += 1;
            },
        }
    }
}

/// Every entry is written, skipped or ignored, and only once.
pub proof fn law_every_entry_is_accounted_for(entries: Seq<EntryView>)
    ensures
        entries_written(entries) + entries_skipped(entries) + entries_ignored(entries)
            == entries.len(),
    decreases entries.len(),
{
    reveal_with_fuel(Seq::filter, 2);
    if entries.len() > 0 {
        law_every_entry_is_accounted_for(entries.drop_last());
    }
}

/// The characters with every doubled quotation mark halved.
pub open spec fn halved_quotes(s: Seq<char>) -> Seq<char>
    decreases s.len(),
{
    if s.len() == 0 {
        Seq::empty()
    } else if s.len() >= 2 && s.last() == '"' {
        halved_quotes(s.take(s.len() - 2)).push('"')
    } else {
        halved_quotes(s.drop_last()).push(s.last())
    }
}

/// What a field of a CSV line says: what stands between its quotation marks, with those
/// in it halved, or all of it where it does not begin with one.
pub open spec fn read_csv_field(field: Seq<char>) -> Seq<char> {
    if field.len() >= 2 && field[0] == '"' {
        halved_quotes(field.subrange(1, field.len() - 1))
    } else {
        field
    }
}

proof fn lemma_quotes_halve_back(s: Seq<char>)
    ensures
        halved_quotes(doubled_quotes(s)) == s,
    decreases s.len(),
{
    if s.len() > 0 {
        let doubled = doubled_quotes(s);
        let before = doubled_quotes(s.drop_last());
        lemma_quotes_halve_back(s.drop_last());
        if s.last() == '"' {
            assert(doubled.take(doubled.len() - 2) =~= before);
        } else {
            assert(doubled.drop_last() =~= before);
        }
        assert(s.drop_last().push(s.last()) =~= s);
    }
}

/// A field reads back as what was written in it, quoted or not.
pub proof fn law_csv_fields_read_back(field: Seq<char>)
    ensures
        read_csv_field(csv_field(field)) == field,
{
    let written = csv_field(field);
    if exists|i: int| 0 <= i < field.len() && is_csv_special(#[trigger] field[i]) {
        lemma_quotes_halve_back(field);
        assert(written.subrange(1, written.len() - 1) =~= doubled_quotes(field));
    } else if field.len() > 0 {
        assert(!is_csv_special(field[0]));
    }
}

/// The file holds no fewer bytes than filings.
proof fn lemma_csv_file_length(entries: Seq<EntryView>)
    ensures
        csv_file(entries).len() >= records_written(entries),
    decreases entries.len(),
{
    if entries.len() > 0 {
        lemma_csv_file_length(entries.drop_last());
        if let OutcomeView::Written(records) = outcome_of(entries.last()) {
            lemma_csv_lines_length(records);
        }
    }
}

/// The counts are those of the entries.
pub open spec fn stats_of(stats: ConstructSubmissionsDataStats, entries: Seq<EntryView>) -> bool {
    &&& stats.files_processed == entries_written(entries)
    &&& stats.files_skipped == entries_skipped(entries)
    &&& stats.filings_written == records_written(entries)
}

/// The entries that are skipped, by their numbers, and why.
pub open spec fn skipped_in(entries: Seq<EntryView>) -> Seq<(int, SkipReasonView)>
    decreases entries.len(),
{
    if entries.len() == 0 {
        Seq::empty()
    } else {
        match outcome_of(entries.last()) {
            OutcomeView::Skipped(reason) => skipped_in(entries.drop_last()).push(
                (entries.len() - 1, reason),
            ),
            _ => skipped_in(entries.drop_last()),
        }
    }
}

/// Every entry that is counted as skipped is reported with its reason.
pub proof fn law_skips_are_reported(entries: Seq<EntryView>)
    ensures
        skipped_in(entries).len() == entries_skipped(entries),
        forall|i: int|
            0 <= i < skipped_in(entries).len() ==> {
                let (index, reason) = #[trigger] skipped_in(entries)[i];
                0 <= index < entries.len() && outcome_of(entries[index]) == OutcomeView::Skipped(
                    reason,
                )
            },
    decreases entries.len(),
{
    reveal_with_fuel(Seq::filter, 2);
    if entries.len() > 0 {
        law_skips_are_reported(entries.drop_last());
        let before = skipped_in(entries.drop_last());
        assert forall|i: int| 0 <= i < skipped_in(entries).len() implies {
            let (index, reason) = #[trigger] skipped_in(entries)[i];
            0 <= index < entries.len() && outcome_of(entries[index]) == OutcomeView::Skipped(reason)
        } by {
            if i < before.len() {
                assert(skipped_in(entries)[i] == before[i]);
                assert(entries.drop_last()[before[i].0] == entries[before[i].0]);
            }
        }
    }
}

/// A CSV file with its counts and the entries that are not in it.
pub struct CsvExport {
    pub file: Vec<u8>,
    pub stats: ConstructSubmissionsDataStats,
    /// The number of every entry that was skipped, and why.
    pub skipped: Vec<(usize, SkipReason)>,
}

pub open spec fn skips_view(skipped: Seq<(usize, SkipReason)>) -> Seq<(int, SkipReasonView)> {
    Seq::new(skipped.len(), |i: int| (skipped[i].0 as int, skipped[i].1@))
}

impl CsvExport {
    /// The export is that of an archive with those entries.
    pub open spec fn is_of(self, entries: Seq<EntryView>) -> bool {
        &&& self.file@ == csv_file(entries)
        &&& stats_of(self.stats, entries)
        &&& skips_view(self.skipped@) == skipped_in(entries)
    }

    /// The export of an archive without entries.
    fn new() -> (export: Self)
        ensures
            export.is_of(Seq::empty()),
    {
        proof {
            reveal(Seq::filter);
        }
        let export = CsvExport {
            file: csv_header(),
            stats: ConstructSubmissionsDataStats::new(),
            skipped: Vec::new(),
        };
        assert(skips_view(export.skipped@) =~= Seq::empty());
        export
    }

    /// Takes an entry behind those before it.
    fn add(
        &mut self,
        index: usize,
        entry: ArchiveEntry,
        Ghost(done): Ghost<Seq<EntryView>>,
        Ghost(last): Ghost<EntryView>,
    )
        requires
            old(self).is_of(done),
            done.len() == index < usize::MAX,
            entry@ == last || entry@ == submissions::as_read(last),
        ensures
            final(self).is_of(done.push(last)),
    {
        let ghost next = done.push(last);
        let ghost before = self.skipped@;
        proof {
            assert(next.drop_last() =~= done);
            assert(outcome_of(entry@) == outcome_of(last));
            law_every_entry_is_accounted_for(done);
            reveal_with_fuel(Seq::filter, 2);
            lemma_csv_file_length(next);
        }
        let outcome = process_entry(entry);
        if let EntryOutcome::Written(records) = &outcome {
            let mut lines = encode_records(records);
            self.file.append(&mut lines);
        } else {
            assert(self.file@ =~= self.file@ + outcome_lines(outcome@));
        }
        assert(self.file@.len() == self.file.len());
        self.stats.count(&outcome);
        if let EntryOutcome::Skipped(reason) = outcome {
            let ghost skip = (index as int, reason@);
            self.skipped.push((index, reason));
            assert(skips_view(self.skipped@) =~= skips_view(before).push(skip));
        }
    }
}

/// The CSV export of the entries of an archive.
pub fn write_entries(entries: Vec<ArchiveEntry>) -> (export: CsvExport)
    ensures
        export.is_of(submissions::entries_view(entries@)),
{
    let ghost all = submissions::entries_view(entries@);
    let mut export = CsvExport::new();
    let mut index: usize = 0;
    assert(all.take(0) =~= Seq::empty());
    assert(entries@.len() == entries.len());
    for entry in iter: entries
        invariant
            index == iter.index(),
            all.len() <= usize::MAX,
            all == submissions::entries_view(iter.seq()),
            export.is_of(all.take(iter.index() as int)),
    {
        let ghost done = all.take(index as int);
        export.add(index, entry, Ghost(done), Ghost(all[index as int]));
        assert(all.take(index + 1) =~= done.push(all[index as int]));
        index += 1;
    }
    assert(all.take(all.len() as int) =~= all);
    export
}

/// The CSV export of a submissions archive, or what is wrong where the bytes are no
/// archive.
pub fn write_submissions_csv(submissions_zip: Vec<u8>) -> (export: Result<
    CsvExport,
    zip::result::ZipError,
>)
    ensures
        match export {
            Ok(export) => {
                &&& archive::zip_entries(submissions_zip@) is Ok
                &&& export.is_of(archive::zip_entries(submissions_zip@)->Ok_0)
            },
            Err(error) => archive::zip_entries(submissions_zip@) == Err::<
                Seq<EntryView>,
                Seq<Seq<char>>,
            >(archive::zip_error_words(error)),
        },
{
    let mut archive = match SubmissionsArchive::open(submissions_zip) {
        Ok(archive) => archive,
        Err(error) => return Err(error),
    };
    let ghost all = archive@;
    let len = archive.len();
    let mut export = CsvExport::new();
    let mut index: usize = 0;
    assert(all.take(0) =~= Seq::empty());
    while index < len
        invariant
            index <= len,
            archive@ == all,
            all.len() == len,
            export.is_of(all.take(index as int)),
        decreases len - index,
    {
        let ghost done = all.take(index as int);
        let entry = archive.entry(index);
        export.add(index, entry, Ghost(done), Ghost(all[index as int]));
        assert(all.take(index + 1) =~= done.push(all[index as int]));
        index += 1;
    }
    assert(all.take(index as int) =~= all);
    Ok(export)
}

} // verus!
