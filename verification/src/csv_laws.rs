//! What holds of the CSV export: its lines, its records and its counts.
use vstd::prelude::*;

use crate::construct_submissions_data::{
    self, ConstructSubmissionsDataStats, CsvExport, EntryOutcome, OutcomeView, SkipReason,
    SkipReasonView,
};
use crate::archive;
use crate::json::{self, CellView, JsonView};
use crate::submissions::{self, EntryView, SubmissionError, SubmissionErrorView};
use crate::text;

verus! {

/// The lines of two rows of records are those of the first and then those of the second.
/// One record gives its line, and none gives nothing.
pub proof fn law_lines_follow_one_another(
    first: Seq<Seq<Seq<char>>>,
    second: Seq<Seq<Seq<char>>>,
    record: Seq<Seq<char>>,
)
    ensures
        construct_submissions_data::csv_lines(first + second)
            == construct_submissions_data::csv_lines(first)
            + construct_submissions_data::csv_lines(second),
        construct_submissions_data::csv_lines(seq![record])
            == construct_submissions_data::csv_line(record),
        construct_submissions_data::csv_lines(Seq::empty()) == Seq::<u8>::empty(),
    decreases second.len(),
{
    reveal_with_fuel(construct_submissions_data::csv_lines, 2);
    assert(seq![record].drop_last() =~= Seq::<Seq<Seq<char>>>::empty());
    assert(construct_submissions_data::csv_lines(seq![record])
        =~= construct_submissions_data::csv_line(record));
    if second.len() == 0 {
        assert(first + second =~= first);
        assert(construct_submissions_data::csv_lines(first)
            + construct_submissions_data::csv_lines(second)
            =~= construct_submissions_data::csv_lines(first));
    } else {
        let rest = second.drop_last();
        law_lines_follow_one_another(first, rest, record);
        assert((first + second).drop_last() =~= first + rest);
        assert((first + second).last() == second.last());
        assert(construct_submissions_data::csv_lines(first)
            + construct_submissions_data::csv_lines(second)
            =~= construct_submissions_data::csv_lines(first)
            + construct_submissions_data::csv_lines(rest)
            + construct_submissions_data::csv_line(second.last()));
    }
}

/// A line has the fields of its record in their order, a comma between one and the next,
/// and a line feed at its end.
pub proof fn law_line_of_a_record(a: Seq<char>, b: Seq<char>, c: Seq<char>, d: Seq<char>)
    ensures
        construct_submissions_data::csv_line(seq![a, b, c, d]) == vstd::utf8::encode_utf8(
            construct_submissions_data::csv_field(a) + seq![',']
                + construct_submissions_data::csv_field(b) + seq![',']
                + construct_submissions_data::csv_field(c) + seq![',']
                + construct_submissions_data::csv_field(d) + seq!['\n'],
        ),
{
    reveal_with_fuel(construct_submissions_data::csv_fields, 5);
    let fields = seq![a, b, c, d];
    assert(fields.drop_last() =~= seq![a, b, c]);
    assert(seq![a, b, c].drop_last() =~= seq![a, b]);
    assert(seq![a, b].drop_last() =~= seq![a]);
    assert(construct_submissions_data::csv_fields(fields).push('\n')
        =~= construct_submissions_data::csv_field(a) + seq![',']
        + construct_submissions_data::csv_field(b) + seq![',']
        + construct_submissions_data::csv_field(c) + seq![',']
        + construct_submissions_data::csv_field(d) + seq!['\n']);
}

/// A field without comma, quotation mark, carriage return and line feed is written as it
/// is; any other between quotation marks, with its own doubled.
pub proof fn law_fields_are_quoted_where_needed(field: Seq<char>)
    ensures
        !field.contains(',') && !field.contains('"') && !field.contains('\r') && !field.contains(
            '\n',
        ) ==> construct_submissions_data::csv_field(field) == field,
        field.contains(',') || field.contains('"') || field.contains('\r') || field.contains('\n')
            ==> construct_submissions_data::csv_field(field) == seq!['"']
            + construct_submissions_data::doubled_quotes(field) + seq!['"'],
{
    if exists|i: int|
        0 <= i < field.len() && construct_submissions_data::is_csv_special(#[trigger] field[i]) {
        let i = choose|i: int|
            0 <= i < field.len() && construct_submissions_data::is_csv_special(
                #[trigger] field[i],
            );
        assert(field.contains(field[i]));
    } else {
        assert forall|c: char|
            c == ',' || c == '"' || c == '\r' || c == '\n' implies !field.contains(c) by {
            if field.contains(c) {
                let i = choose|i: int| 0 <= i < field.len() && field[i] == c;
                assert(construct_submissions_data::is_csv_special(field[i]));
            }
        }
    }
}

/// Quotation marks are doubled one by one, and nothing else is changed.
pub proof fn law_quotes_are_doubled(front: Seq<char>, back: Seq<char>, c: char)
    ensures
        construct_submissions_data::doubled_quotes(front + back)
            == construct_submissions_data::doubled_quotes(front)
            + construct_submissions_data::doubled_quotes(back),
        construct_submissions_data::doubled_quotes(seq!['"']) == seq!['"', '"'],
        c != '"' ==> construct_submissions_data::doubled_quotes(seq![c]) == seq![c],
        construct_submissions_data::doubled_quotes(Seq::empty()) == Seq::<char>::empty(),
    decreases back.len(),
{
    reveal_with_fuel(construct_submissions_data::doubled_quotes, 2);
    assert(seq![c].drop_last() =~= Seq::<char>::empty());
    assert(seq!['"'].drop_last() =~= Seq::<char>::empty());
    assert(construct_submissions_data::doubled_quotes(seq!['"']) =~= seq!['"', '"']);
    if back.len() == 0 {
        assert(front + back =~= front);
        assert(construct_submissions_data::doubled_quotes(front)
            + construct_submissions_data::doubled_quotes(back)
            =~= construct_submissions_data::doubled_quotes(front));
    } else {
        let rest = back.drop_last();
        law_quotes_are_doubled(front, rest, c);
        assert((front + back).drop_last() =~= front + rest);
        assert((front + back).last() == back.last());
        assert(construct_submissions_data::doubled_quotes(front + back)
            =~= construct_submissions_data::doubled_quotes(front)
            + construct_submissions_data::doubled_quotes(back));
    }
}

/// The first line names the four columns.
pub proof fn law_header_line()
    ensures
        construct_submissions_data::csv_header_fields() == seq![
            "cik"@,
            "accessionNumber"@,
            "filingDate"@,
            "form"@,
        ],
        construct_submissions_data::csv_line(construct_submissions_data::csv_header_fields())
            == vstd::utf8::encode_utf8("cik,accessionNumber,filingDate,form\n"@),
{
    reveal_strlit("cik");
    reveal_strlit("accessionNumber");
    reveal_strlit("filingDate");
    reveal_strlit("form");
    reveal_strlit("cik,accessionNumber,filingDate,form\n");
    law_line_of_a_record("cik"@, "accessionNumber"@, "filingDate"@, "form"@);
    let a = "cik"@;
    let b = "accessionNumber"@;
    let c = "filingDate"@;
    let d = "form"@;
    assert(construct_submissions_data::csv_field(a) == a);
    assert(construct_submissions_data::csv_field(b) == b);
    assert(construct_submissions_data::csv_field(c) == c);
    assert(construct_submissions_data::csv_field(d) == d);
    assert(a + seq![','] + b + seq![','] + c + seq![','] + d + seq!['\n']
        =~= "cik,accessionNumber,filingDate,form\n"@);
}

/// The records of an entry that is written; none for any other.
pub open spec fn records_of(entry: EntryView) -> Seq<Seq<Seq<char>>> {
    match construct_submissions_data::outcome_of(entry) {
        OutcomeView::Written(records) => records,
        _ => Seq::empty(),
    }
}

/// The file has the line with the names of the columns, and then, entry by entry, the
/// lines of all records of the entries that are written, and nothing else. As many
/// filings are counted.
pub proof fn law_file_holds_all_records(before: Seq<EntryView>, entry: EntryView)
    ensures
        construct_submissions_data::csv_file(Seq::empty()) == vstd::utf8::encode_utf8(
            "cik,accessionNumber,filingDate,form\n"@,
        ),
        construct_submissions_data::csv_file(before.push(entry))
            == construct_submissions_data::csv_file(before)
            + construct_submissions_data::csv_lines(records_of(entry)),
        construct_submissions_data::records_written(Seq::empty()) == 0,
        construct_submissions_data::records_written(before.push(entry))
            == construct_submissions_data::records_written(before) + records_of(entry).len(),
{
    law_header_line();
    assert(before.push(entry).drop_last() =~= before);
    assert(before.push(entry).last() == entry);
}

/// The file of two rows of entries is that of the first, and then that of the second
/// without the names of the columns.
pub proof fn law_files_can_be_joined(first: Seq<EntryView>, second: Seq<EntryView>)
    ensures
        ({
            let header = vstd::utf8::encode_utf8("cik,accessionNumber,filingDate,form\n"@);
            let file = construct_submissions_data::csv_file(second);
            &&& header.is_prefix_of(file)
            &&& construct_submissions_data::csv_file(first + second)
                == construct_submissions_data::csv_file(first) + file.skip(header.len() as int)
        }),
        construct_submissions_data::records_written(first + second)
            == construct_submissions_data::records_written(first)
            + construct_submissions_data::records_written(second),
    decreases second.len(),
{
    law_header_line();
    let header = vstd::utf8::encode_utf8("cik,accessionNumber,filingDate,form\n"@);
    let file = construct_submissions_data::csv_file(second);
    if second.len() == 0 {
        assert(first + second =~= first);
        assert(file.skip(header.len() as int) =~= Seq::<u8>::empty());
        assert(construct_submissions_data::csv_file(first) + file.skip(header.len() as int)
            =~= construct_submissions_data::csv_file(first));
        assert(header =~= file.subrange(0, header.len() as int));
    } else {
        let rest = second.drop_last();
        law_files_can_be_joined(first, rest);
        assert((first + second).drop_last() =~= first + rest);
        assert((first + second).last() == second.last());
        let shorter = construct_submissions_data::csv_file(rest);
        let lines = construct_submissions_data::outcome_lines(
            construct_submissions_data::outcome_of(second.last()),
        );
        assert(file == shorter + lines);
        assert(header =~= file.subrange(0, header.len() as int)) by {
            assert(header =~= shorter.subrange(0, header.len() as int));
        }
        assert(file.skip(header.len() as int) =~= shorter.skip(header.len() as int) + lines);
        assert(construct_submissions_data::csv_file(first + second)
            =~= construct_submissions_data::csv_file(first) + file.skip(header.len() as int));
    }
}

/// Entries are counted one by one, each by what becomes of it.
pub proof fn law_counts_add_up(first: Seq<EntryView>, second: Seq<EntryView>, entry: EntryView)
    ensures
        construct_submissions_data::entries_written(first + second)
            == construct_submissions_data::entries_written(first)
            + construct_submissions_data::entries_written(second),
        construct_submissions_data::entries_skipped(first + second)
            == construct_submissions_data::entries_skipped(first)
            + construct_submissions_data::entries_skipped(second),
        construct_submissions_data::entries_ignored(first + second)
            == construct_submissions_data::entries_ignored(first)
            + construct_submissions_data::entries_ignored(second),
        construct_submissions_data::entries_written(seq![entry])
            == if construct_submissions_data::outcome_of(entry) is Written {
            1nat
        } else {
            0nat
        },
        construct_submissions_data::entries_skipped(seq![entry])
            == if construct_submissions_data::outcome_of(entry) is Skipped {
            1nat
        } else {
            0nat
        },
        construct_submissions_data::entries_ignored(seq![entry])
            == if construct_submissions_data::outcome_of(entry) is Ignored {
            1nat
        } else {
            0nat
        },
{
    Seq::filter_distributes_over_add(
        first,
        second,
        |entry: EntryView| construct_submissions_data::outcome_of(entry) is Written,
    );
    Seq::filter_distributes_over_add(
        first,
        second,
        |entry: EntryView| construct_submissions_data::outcome_of(entry) is Skipped,
    );
    Seq::filter_distributes_over_add(
        first,
        second,
        |entry: EntryView| construct_submissions_data::outcome_of(entry) is Ignored,
    );
    reveal_with_fuel(Seq::filter, 2);
    assert(seq![entry].drop_last() =~= Seq::<EntryView>::empty());
}

/// An entry is reported as skipped exactly where it is skipped, with its number and its
/// reason.
pub proof fn law_all_skips_are_reported(
    entries: Seq<EntryView>,
    index: int,
    reason: SkipReasonView,
)
    ensures
        construct_submissions_data::skipped_in(entries).contains((index, reason)) <==> 0 <= index
            < entries.len() && construct_submissions_data::outcome_of(entries[index])
            == OutcomeView::Skipped(reason),
    decreases entries.len(),
{
    let skipped = construct_submissions_data::skipped_in(entries);
    if entries.len() > 0 {
        let rest = entries.drop_last();
        let before = construct_submissions_data::skipped_in(rest);
        law_all_skips_are_reported(rest, index, reason);
        if before.contains((index, reason)) {
            let k = choose|k: int| 0 <= k < before.len() && before[k] == (index, reason);
            assert(skipped[k] == (index, reason));
        }
        if skipped.contains((index, reason)) {
            let k = choose|k: int| 0 <= k < skipped.len() && skipped[k] == (index, reason);
            if k < before.len() {
                assert(before[k] == (index, reason));
            }
        }
        if 0 <= index < rest.len() {
            assert(rest[index] == entries[index]);
        } else if index == rest.len() && construct_submissions_data::outcome_of(entries[index])
            == OutcomeView::Skipped(reason) {
            assert(skipped[before.len() as int] == (index, reason));
        }
    }
}

/// Skipped entries are reported in the order in which they stand in the archive.
pub proof fn law_skips_are_in_order(entries: Seq<EntryView>, i: int, j: int)
    requires
        0 <= i < j < construct_submissions_data::skipped_in(entries).len(),
    ensures
        construct_submissions_data::skipped_in(entries)[i].0
            < construct_submissions_data::skipped_in(entries)[j].0,
    decreases entries.len(),
{
    let rest = entries.drop_last();
    let before = construct_submissions_data::skipped_in(rest);
    if j < before.len() {
        law_skips_are_in_order(rest, i, j);
    } else {
        construct_submissions_data::law_skips_are_reported(rest);
        assert(before[i].0 < rest.len());
    }
}

/// A document gives one record for each accession number: the filer's number in decimal,
/// and the cells of the same row as text. The arrays may not be missing, nor shorter than
/// that of the accession numbers.
pub proof fn law_records_of_a_document(
    filename: Seq<char>,
    cik: u64,
    data: JsonView,
    filings: JsonView,
    accessions: Option<Seq<CellView>>,
    dates: Option<Seq<CellView>>,
    forms: Option<Seq<CellView>>,
    i: int,
)
    requires
        submissions::filings_of(filename, data) == Some(filings),
        submissions::field_cells(filings, "accessionNumber"@) == accessions,
        submissions::field_cells(filings, "filingDate"@) == dates,
        submissions::field_cells(filings, "form"@) == forms,
    ensures
        ({
            let records = construct_submissions_data::document_records(filename, cik, data);
            match (accessions, dates, forms) {
                (None, _, _) => records == Err::<Seq<Seq<Seq<char>>>, SubmissionErrorView>(
                    SubmissionErrorView::MissingArrayField("accessionNumber"@),
                ),
                (Some(_), None, _) => records == Err::<Seq<Seq<Seq<char>>>, SubmissionErrorView>(
                    SubmissionErrorView::MissingArrayField("filingDate"@),
                ),
                (Some(_), Some(_), None) => records == Err::<
                    Seq<Seq<Seq<char>>>,
                    SubmissionErrorView,
                >(SubmissionErrorView::MissingArrayField("form"@)),
                (Some(numbers), Some(days), Some(kinds)) => {
                    &&& (days.len() < numbers.len() || kinds.len() < numbers.len())
                        <==> records == Err::<Seq<Seq<Seq<char>>>, SubmissionErrorView>(
                        SubmissionErrorView::MismatchedLengths,
                    )
                    &&& days.len() >= numbers.len() && kinds.len() >= numbers.len() ==> {
                        &&& records is Ok
                        &&& records->Ok_0.len() == numbers.len()
                        &&& 0 <= i < numbers.len() ==> {
                            &&& records->Ok_0[i].len() == 4
                            &&& records->Ok_0[i][0] == text::decimal(cik as nat)
                            &&& records->Ok_0[i][1] == submissions::cell_text(numbers[i])
                            &&& records->Ok_0[i][2] == submissions::cell_text(days[i])
                            &&& records->Ok_0[i][3] == submissions::cell_text(kinds[i])
                        }
                    }
                },
            }
        }),
{
}

/// Without filings there are no records.
pub proof fn law_documents_without_filings(filename: Seq<char>, cik: u64, data: JsonView)
    requires
        submissions::filings_of(filename, data) is None,
    ensures
        construct_submissions_data::document_records(filename, cik, data) == Err::<
            Seq<Seq<Seq<char>>>,
            SubmissionErrorView,
        >(SubmissionErrorView::MissingRecentFilings),
{
}

/// What is wrong with a name is told before what is wrong with the document; where
/// nothing is, the records are those of the document for the filer of the name.
pub proof fn law_records_of_a_file(
    filename: Seq<char>,
    data: JsonView,
    words: Seq<Seq<char>>,
)
    ensures
        match submissions::cik_of(filename) {
            Err(error) => {
                &&& construct_submissions_data::file_records(filename, Ok(data)) == Err::<
                    Seq<Seq<Seq<char>>>,
                    SubmissionErrorView,
                >(error)
                &&& construct_submissions_data::file_records(filename, Err(words)) == Err::<
                    Seq<Seq<Seq<char>>>,
                    SubmissionErrorView,
                >(error)
            },
            Ok(cik) => {
                &&& construct_submissions_data::file_records(filename, Ok(data))
                    == construct_submissions_data::document_records(filename, cik, data)
                &&& construct_submissions_data::file_records(filename, Err(words)) == Err::<
                    Seq<Seq<Seq<char>>>,
                    SubmissionErrorView,
                >(SubmissionErrorView::InvalidJson(words))
            },
        },
{
}

/// What was read of an entry is taken as JSON; what could not be read keeps its error.
pub proof fn law_contents_are_parsed(bytes: Seq<u8>, words: Seq<Seq<char>>)
    ensures
        construct_submissions_data::read_document(Ok(bytes)) == json::parsed_json(bytes),
        construct_submissions_data::read_document(Err(words)) == Err::<JsonView, Seq<Seq<char>>>(
            words,
        ),
{
}

/// An entry that could not be opened is skipped; one whose name does not begin with `CIK`
/// is ignored; any other is written where its records can be read, and else skipped with
/// the error.
pub proof fn law_what_becomes_of_an_entry(
    name: Seq<char>,
    contents: Result<Seq<u8>, Seq<Seq<char>>>,
    words: Seq<Seq<char>>,
)
    ensures
        construct_submissions_data::outcome_of(EntryView::Unreadable(words))
            == OutcomeView::Skipped(SkipReasonView::UnreadableEntry(words)),
        ({
            let named = name.len() >= 3 && name[0] == 'C' && name[1] == 'I' && name[2] == 'K';
            let outcome = construct_submissions_data::outcome_of(
                (EntryView::File { name, contents }),
            );
            &&& !named <==> outcome is Ignored
            &&& named ==> match construct_submissions_data::file_records(
                name,
                construct_submissions_data::read_document(contents),
            ) {
                Ok(records) => outcome == OutcomeView::Written(records),
                Err(error) => outcome == OutcomeView::Skipped(
                    SkipReasonView::File { name, error },
                ),
            }
        }),
{
    crate::document_laws::lemma_begins_with_cik(name);
}

/// The lines of an entry are those of its records, and the number of its records is
/// counted.
pub proof fn law_lines_of_an_entry(records: Seq<Seq<Seq<char>>>, reason: SkipReasonView)
    ensures
        construct_submissions_data::outcome_lines(OutcomeView::Written(records))
            == construct_submissions_data::csv_lines(records),
        construct_submissions_data::outcome_lines(OutcomeView::Ignored).len() == 0,
        construct_submissions_data::outcome_lines(OutcomeView::Skipped(reason)).len() == 0,
        construct_submissions_data::records_in(OutcomeView::Written(records)) == records.len(),
        construct_submissions_data::records_in(OutcomeView::Ignored) == 0,
        construct_submissions_data::records_in(OutcomeView::Skipped(reason)) == 0,
{
}

/// An export holds the file, the counts and the skipped entries of its archive.
pub proof fn law_exports_are_whole(export: CsvExport, entries: Seq<EntryView>, i: int)
    requires
        export.is_of(entries),
    ensures
        export.file@ == construct_submissions_data::csv_file(entries),
        export.stats.files_processed == construct_submissions_data::entries_written(entries),
        export.stats.files_skipped == construct_submissions_data::entries_skipped(entries),
        export.stats.filings_written == construct_submissions_data::records_written(entries),
        export.skipped@.len() == construct_submissions_data::skipped_in(entries).len(),
        0 <= i < export.skipped@.len() ==> {
            &&& export.skipped@[i].0 == construct_submissions_data::skipped_in(entries)[i].0
            &&& export.skipped@[i].1@ == construct_submissions_data::skipped_in(entries)[i].1
        },
{
    let viewed = construct_submissions_data::skips_view(export.skipped@);
    assert(viewed.len() == export.skipped@.len());
    if 0 <= i < export.skipped@.len() {
        assert(viewed[i] == (export.skipped@[i].0 as int, export.skipped@[i].1@));
    }
}

/// The counts are those of the entries and of nothing else.
pub proof fn law_stats_count_entries(
    stats: ConstructSubmissionsDataStats,
    entries: Seq<EntryView>,
)
    ensures
        construct_submissions_data::stats_of(stats, entries) <==> {
            &&& stats.files_processed == construct_submissions_data::entries_written(entries)
            &&& stats.files_skipped == construct_submissions_data::entries_skipped(entries)
            &&& stats.filings_written == construct_submissions_data::records_written(entries)
        },
{
}

/// The view of records has all of them, in their order, with their four fields.
pub proof fn law_records_are_viewed_whole(records: Seq<[String; 4]>, i: int)
    ensures
        construct_submissions_data::records_view(records).len() == records.len(),
        0 <= i < records.len() ==> {
            &&& construct_submissions_data::records_view(records)[i]
                == construct_submissions_data::record_view(records[i])
            &&& construct_submissions_data::record_view(records[i]).len() == 4
            &&& forall|k: int|
                0 <= k < 4 ==> construct_submissions_data::record_view(records[i])[k]
                    == #[trigger] records[i]@[k]@
        },
{
}

/// The view of an outcome holds all that the outcome does.
pub proof fn law_outcomes_are_viewed_whole(outcome: EntryOutcome, reason: SkipReason)
    ensures
        match outcome {
            EntryOutcome::Ignored => outcome@ == OutcomeView::Ignored,
            EntryOutcome::Written(records) => outcome@ is Written && outcome@->Written_0
                == construct_submissions_data::records_view(records@),
            EntryOutcome::Skipped(reason) => outcome@ == OutcomeView::Skipped(reason@),
        },
        match reason {
            SkipReason::UnreadableEntry(error) => reason@ == SkipReasonView::UnreadableEntry(
                archive::zip_error_words(error),
            ),
            SkipReason::File { name, error } => reason@ == (SkipReasonView::File {
                name: name@,
                error: error@,
            }),
        },
{
}

/// The view of a result holds the records or the error.
pub proof fn law_results_are_viewed_whole(
    result: Result<Vec<[String; 4]>, SubmissionError>,
)
    ensures
        match result {
            Ok(records) => {
                &&& construct_submissions_data::result_view(result) is Ok
                &&& construct_submissions_data::result_view(result)->Ok_0
                    == construct_submissions_data::records_view(records@)
            },
            Err(error) => construct_submissions_data::result_view(result) == Err::<
                Seq<Seq<Seq<char>>>,
                SubmissionErrorView,
            >(error@),
        },
{
}

} // verus!
