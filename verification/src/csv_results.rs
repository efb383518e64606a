//! What the functions of the CSV export give back, in terms of what they are given.
use vstd::prelude::*;

use crate::archive;
use crate::construct_submissions_data::{
    self, csv_header, encode_records, process_entry, process_submission_file, submission_records,
    write_submissions_csv, ConstructSubmissionsDataStats, CsvExport, EntryOutcome,
};
use crate::csv_laws;
use crate::document_laws;
use crate::json::{Cell, Json};
use crate::submissions::{
    self, cik_number, field_array, filings_data, ArchiveEntry, SubmissionError,
    SubmissionErrorView,
};
use crate::text;

verus! {

/// A document gives one record for each accession number, with the filer's number in
/// decimal and the cells of the same row as they are written.
pub proof fn law_result_for_a_document(
    filename: &str,
    cik: u64,
    data: &Json,
    records: Result<Vec<[String; 4]>, SubmissionError>,
    filings: &Json,
    accessions: &Vec<Cell>,
    dates: &Vec<Cell>,
    forms: &Vec<Cell>,
    i: int,
)
    requires
        call_ensures(submission_records, (filename, cik, data), records),
        call_ensures(filings_data, (filename, data), Ok(filings)),
        call_ensures(field_array, (filings, "accessionNumber"), Ok(accessions)),
        call_ensures(field_array, (filings, "filingDate"), Ok(dates)),
        call_ensures(field_array, (filings, "form"), Ok(forms)),
    ensures
        dates@.len() < accessions@.len() || forms@.len() < accessions@.len() ==> records is Err
            && records->Err_0 is MismatchedLengths,
        dates@.len() >= accessions@.len() && forms@.len() >= accessions@.len() ==> {
            &&& records is Ok
            &&& records->Ok_0@.len() == accessions@.len()
            &&& 0 <= i < accessions@.len() ==> {
                &&& records->Ok_0@[i]@[0]@ == text::decimal(cik as nat)
                &&& records->Ok_0@[i]@[1]@ == submissions::cell_text(accessions@[i]@)
                &&& records->Ok_0@[i]@[2]@ == submissions::cell_text(dates@[i]@)
                &&& records->Ok_0@[i]@[3]@ == submissions::cell_text(forms@[i]@)
            }
        },
{
    csv_laws::law_records_of_a_document(
        filename@,
        cik,
        data@,
        filings@,
        Some(crate::json::cells_view(accessions@)),
        Some(crate::json::cells_view(dates@)),
        Some(crate::json::cells_view(forms@)),
        i,
    );
    if let Ok(found) = records {
        csv_laws::law_records_are_viewed_whole(found@, i);
        let viewed = construct_submissions_data::records_view(found@);
        assert(viewed.len() == found@.len());
        if 0 <= i < found@.len() {
            assert(viewed[i] == construct_submissions_data::record_view(found@[i]));
        }
    }
}

/// A file gives the records of the document that it holds, for the filer of its name.
pub proof fn law_result_for_a_file(
    filename: &str,
    contents: &[u8],
    records: Result<Vec<[String; 4]>, SubmissionError>,
    cik: Result<u64, SubmissionError>,
    data: Result<Json, serde_json::Error>,
    expected: Result<Vec<[String; 4]>, SubmissionError>,
)
    requires
        call_ensures(process_submission_file, (filename, contents), records),
        call_ensures(cik_number, (filename,), cik),
        call_ensures(Json::parse, (contents,), data),
        cik is Ok && data is Ok ==> call_ensures(
            submission_records,
            (filename, cik->Ok_0, &data->Ok_0),
            expected,
        ),
    ensures
        match cik {
            Err(error) => records is Err && records->Err_0@ == error@,
            Ok(_) => match data {
                Err(error) => records is Err && records->Err_0@
                    == SubmissionErrorView::InvalidJson(crate::json::json_error_words(error)),
                Ok(_) => construct_submissions_data::result_view(records)
                    == construct_submissions_data::result_view(expected),
            },
        },
{
}

/// An entry that could not be opened is skipped, one whose name does not begin with `CIK`
/// is ignored, and any other is written with the records of its file or skipped with the
/// error.
pub proof fn law_result_for_an_entry(
    entry: ArchiveEntry,
    outcome: EntryOutcome,
    name: &str,
    bytes: &[u8],
    records: Result<Vec<[String; 4]>, SubmissionError>,
)
    requires
        call_ensures(process_entry, (entry,), outcome),
        call_ensures(process_submission_file, (name, bytes), records),
    ensures
        entry is Unreadable ==> outcome is Skipped && outcome->Skipped_0 is UnreadableEntry,
        entry matches ArchiveEntry::File { name: named, contents } ==> {
            let holds = named@.len() >= 3 && named@[0] == 'C' && named@[1] == 'I' && named@[2]
                == 'K';
            &&& !holds <==> outcome is Ignored
            &&& holds && named@ == name@ && contents is Ok && contents->Ok_0@ == bytes@
                ==> match records {
                Ok(records) => {
                    &&& outcome is Written
                    &&& construct_submissions_data::records_view(outcome->Written_0@)
                        == construct_submissions_data::records_view(records@)
                },
                Err(error) => {
                    &&& outcome is Skipped
                    &&& outcome->Skipped_0 is File
                    &&& outcome->Skipped_0->name@ == name@
                    &&& outcome->Skipped_0->error@ == error@
                },
            }
            &&& holds && contents is Err ==> outcome is Skipped && outcome->Skipped_0 is File
                && outcome->Skipped_0->name@ == named@
        },
{
    if let ArchiveEntry::File { name: named, .. } = entry {
        document_laws::lemma_begins_with_cik(named@);
    }
}

/// The lines of records are those of the first, then those of the rest: records that are
/// encoded in two parts give the same bytes as in one.
pub proof fn law_results_of_encoding(
    records: Vec<[String; 4]>,
    first: Vec<[String; 4]>,
    second: Vec<[String; 4]>,
    lines: Vec<u8>,
    first_lines: Vec<u8>,
    second_lines: Vec<u8>,
)
    requires
        records@ == first@ + second@,
        call_ensures(encode_records, (&records,), lines),
        call_ensures(encode_records, (&first,), first_lines),
        call_ensures(encode_records, (&second,), second_lines),
    ensures
        lines@ == first_lines@ + second_lines@,
{
    let a = construct_submissions_data::records_view(first@);
    let b = construct_submissions_data::records_view(second@);
    assert(construct_submissions_data::records_view(records@) =~= a + b);
    csv_laws::law_lines_follow_one_another(a, b, Seq::empty());
}

/// The line of one record has its four fields, and the header has the four names.
pub proof fn law_result_of_encoding_one(
    record: [String; 4],
    records: Vec<[String; 4]>,
    lines: Vec<u8>,
    header: Vec<u8>,
)
    requires
        records@ == seq![record],
        call_ensures(encode_records, (&records,), lines),
        call_ensures(csv_header, (), header),
    ensures
        lines@ == vstd::utf8::encode_utf8(
            construct_submissions_data::csv_field(record@[0]@) + seq![',']
                + construct_submissions_data::csv_field(record@[1]@) + seq![',']
                + construct_submissions_data::csv_field(record@[2]@) + seq![',']
                + construct_submissions_data::csv_field(record@[3]@) + seq!['\n'],
        ),
        header@ == vstd::utf8::encode_utf8("cik,accessionNumber,filingDate,form\n"@),
{
    let viewed = construct_submissions_data::record_view(record);
    assert(construct_submissions_data::records_view(records@) =~= seq![viewed]);
    csv_laws::law_lines_follow_one_another(seq![viewed], Seq::empty(), viewed);
    csv_laws::law_line_of_a_record(record@[0]@, record@[1]@, record@[2]@, record@[3]@);
    assert(viewed =~= seq![record@[0]@, record@[1]@, record@[2]@, record@[3]@]);
    csv_laws::law_header_line();
}

/// The export of entries has the header, then the lines of the records of every entry that
/// is written, entry by entry, and it counts and reports every entry: so the export of the
/// entries up to one more differs by what becomes of that one.
pub proof fn law_result_of_exporting(
    entries: Vec<ArchiveEntry>,
    fewer: Vec<ArchiveEntry>,
    last: ArchiveEntry,
    export: CsvExport,
    before: CsvExport,
    outcome: EntryOutcome,
)
    requires
        entries@ == fewer@.push(last),
        call_ensures(construct_submissions_data::write_entries, (entries,), export),
        call_ensures(construct_submissions_data::write_entries, (fewer,), before),
        call_ensures(process_entry, (last,), outcome),
    ensures
        match outcome {
            EntryOutcome::Written(records) => {
                &&& export.file@ == before.file@ + construct_submissions_data::csv_lines(
                    construct_submissions_data::records_view(records@),
                )
                &&& export.stats.files_processed == before.stats.files_processed + 1
                &&& export.stats.files_skipped == before.stats.files_skipped
                &&& export.stats.filings_written == before.stats.filings_written
                    + records@.len()
                &&& export.skipped@.len() == before.skipped@.len()
            },
            EntryOutcome::Skipped(reason) => {
                &&& export.file@ == before.file@
                &&& export.stats.files_processed == before.stats.files_processed
                &&& export.stats.files_skipped == before.stats.files_skipped + 1
                &&& export.stats.filings_written == before.stats.filings_written
                &&& export.skipped@.len() == before.skipped@.len() + 1
                &&& export.skipped@.last().0 == fewer@.len()
                &&& export.skipped@.last().1@ == reason@
            },
            EntryOutcome::Ignored => {
                &&& export.file@ == before.file@
                &&& export.stats == before.stats
                &&& export.skipped@.len() == before.skipped@.len()
            },
        },
{
    let all = submissions::entries_view(entries@);
    let rest = submissions::entries_view(fewer@);
    assert(all =~= rest.push(last@));
    assert(all =~= rest + seq![last@]);
    assert(all.drop_last() =~= rest);
    csv_laws::law_file_holds_all_records(rest, last@);
    csv_laws::law_counts_add_up(rest, seq![last@], last@);
    csv_laws::law_exports_are_whole(export, all, export.skipped@.len() - 1);
    csv_laws::law_exports_are_whole(before, rest, 0);
    if let EntryOutcome::Written(records) = outcome {
        assert(construct_submissions_data::records_view(records@).len() == records@.len());
    } else {
        assert(csv_laws::records_of(last@) =~= Seq::empty());
        csv_laws::law_lines_follow_one_another(Seq::empty(), Seq::empty(), Seq::empty());
        assert(export.file@ =~= before.file@);
    }
}

/// The export of no entries is the header alone.
pub proof fn law_result_of_exporting_nothing(entries: Vec<ArchiveEntry>, export: CsvExport)
    requires
        entries@.len() == 0,
        call_ensures(construct_submissions_data::write_entries, (entries,), export),
    ensures
        export.file@ == vstd::utf8::encode_utf8("cik,accessionNumber,filingDate,form\n"@),
        export.stats.files_processed == 0,
        export.stats.files_skipped == 0,
        export.stats.filings_written == 0,
        export.skipped@.len() == 0,
{
    let all = submissions::entries_view(entries@);
    assert(all =~= Seq::empty());
    reveal(Seq::filter);
    csv_laws::law_header_line();
    csv_laws::law_exports_are_whole(export, all, 0);
}

/// The export of an archive is that of its entries.
pub proof fn law_result_of_exporting_an_archive(
    bytes: Vec<u8>,
    export: Result<CsvExport, zip::result::ZipError>,
    entries: Vec<ArchiveEntry>,
    expected: CsvExport,
)
    requires
        call_ensures(write_submissions_csv, (bytes,), export),
        call_ensures(construct_submissions_data::write_entries, (entries,), expected),
        export is Ok ==> archive::zip_entries(bytes@) == Ok::<_, Seq<Seq<char>>>(
            submissions::entries_view(entries@),
        ),
    ensures
        archive::zip_entries(bytes@) is Ok <==> export is Ok,
        export is Ok ==> {
            &&& export->Ok_0.file@ == expected.file@
            &&& export->Ok_0.stats == expected.stats
            &&& export->Ok_0.skipped@.len() == expected.skipped@.len()
        },
{
    if export is Ok {
        let all = submissions::entries_view(entries@);
        csv_laws::law_exports_are_whole(export->Ok_0, all, 0);
        csv_laws::law_exports_are_whole(expected, all, 0);
    }
}

/// New counts are zero, and an entry is counted by what becomes of it.
pub proof fn law_results_of_counting(
    fresh: ConstructSubmissionsDataStats,
    outcome: EntryOutcome,
)
    requires
        call_ensures(ConstructSubmissionsDataStats::new, (), fresh),
    ensures
        fresh.files_processed == 0,
        fresh.files_skipped == 0,
        fresh.filings_written == 0,
        forall|stats: &mut ConstructSubmissionsDataStats|
            #[trigger] call_ensures(ConstructSubmissionsDataStats::count, (stats, &outcome), ())
                ==> match outcome {
                EntryOutcome::Written(records) => {
                    &&& final(stats).files_processed == stats.files_processed + 1
                    &&& final(stats).files_skipped == stats.files_skipped
                    &&& final(stats).filings_written == stats.filings_written + records@.len()
                },
                EntryOutcome::Skipped(_) => {
                    &&& final(stats).files_processed == stats.files_processed
                    &&& final(stats).files_skipped == stats.files_skipped + 1
                    &&& final(stats).filings_written == stats.filings_written
                },
                EntryOutcome::Ignored => *final(stats) == *stats,
            },
{
    if let EntryOutcome::Written(records) = outcome {
        assert(construct_submissions_data::records_view(records@).len() == records@.len());
    }
}

} // verus!
