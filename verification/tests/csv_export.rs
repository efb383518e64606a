use std::io::{Cursor, Write};

use secinfra::archive::SubmissionsArchive;
use secinfra::construct_submissions_data::{
    cik_from_filename, csv_header, csv_value, encode_records, process_entry,
    process_submission_file, write_entries, write_submissions_csv, ConstructSubmissionsDataStats,
    EntryOutcome, SkipReason,
};
use secinfra::json::{Cell, Json, JsonNumber};
use secinfra::submissions::{ArchiveEntry, ContentsError, SubmissionError};
use secinfra::text::NumberError;
use zip::result::ZipError;
use zip::write::SimpleFileOptions;

fn zip_of(files: &[(&str, &[u8])]) -> Vec<u8> {
    let mut zip_bytes = Cursor::new(Vec::new());
    {
        let mut zip = zip::ZipWriter::new(&mut zip_bytes);
        for (name, contents) in files {
            zip.start_file(*name, SimpleFileOptions::default()).unwrap();
            zip.write_all(contents).unwrap();
        }
        zip.finish().unwrap();
    }
    zip_bytes.into_inner()
}

fn file(name: &str, contents: &str) -> ArchiveEntry {
    ArchiveEntry::File {
        name: name.to_string(),
        contents: Ok(contents.as_bytes().to_vec()),
    }
}

const RECENT: &str = r#"{"filings": {"recent": {
    "accessionNumber": ["0000320193-24-000123", "0000320193-24-000124"],
    "filingDate": ["2024-10-31", null],
    "form": ["10-Q", "4, \"A\""]
}}}"#;

#[test]
fn writes_sec_field_names_without_mapping() {
    let zip_bytes = zip_of(&[(
        "CIK0000320193.json",
        br#"{
                    "filings": {
                        "recent": {
                            "accessionNumber": ["0000320193-24-000123"],
                            "filingDate": ["2024-10-31"],
                            "form": ["10-Q"]
                        }
                    }
                }"#,
    )]);

    let output = write_submissions_csv(zip_bytes).unwrap().file;
    let csv = String::from_utf8(output).unwrap();

    assert_eq!(
        csv,
        "cik,accessionNumber,filingDate,form\n320193,0000320193-24-000123,2024-10-31,10-Q\n"
    );
}

#[test]
fn reads_submission_shard_shape() {
    let zip_bytes = zip_of(&[(
        "CIK0000000001-submissions-001.json",
        br#"{
                    "accessionNumber": ["0000000001-24-000001"],
                    "filingDate": ["2024-01-02"],
                    "form": ["8-K"]
                }"#,
    )]);

    let output = write_submissions_csv(zip_bytes).unwrap().file;
    let csv = String::from_utf8(output).unwrap();

    assert_eq!(
        csv,
        "cik,accessionNumber,filingDate,form\n1,0000000001-24-000001,2024-01-02,8-K\n"
    );
}

#[test]
fn bytes_that_are_no_archive_give_nothing() {
    assert!(matches!(
        write_submissions_csv(b"not a zip file".to_vec()),
        Err(ZipError::InvalidArchive(_))
    ));
}

#[test]
fn an_empty_archive_gives_the_header_alone() {
    let export = write_submissions_csv(zip_of(&[])).unwrap();
    assert_eq!(export.file, csv_header());
    assert_eq!(export.file, b"cik,accessionNumber,filingDate,form\n");
    assert_eq!(export.stats, ConstructSubmissionsDataStats::new());
    assert!(export.skipped.is_empty());
}

#[test]
fn every_entry_is_written_skipped_or_ignored() {
    let entries = vec![
        file("placeholder.txt", "nothing to see"),
        file("CIK0000320193.json", RECENT),
        file("CIK0000000002.json", "{"),
        ArchiveEntry::Unreadable(ZipError::InvalidPassword),
        ArchiveEntry::File {
            name: "CIK0000000003.json".to_string(),
            contents: Err(std::io::Error::other("Invalid checksum")),
        },
        file("CIK0000000004-submissions-001.json", RECENT),
    ];
    let export = write_entries(entries);
    assert_eq!(
        String::from_utf8(export.file).unwrap(),
        "cik,accessionNumber,filingDate,form\n\
         320193,0000320193-24-000123,2024-10-31,10-Q\n\
         320193,0000320193-24-000124,,\"4, \"\"A\"\"\"\n"
    );
    assert_eq!(
        export.stats,
        ConstructSubmissionsDataStats { files_processed: 1, files_skipped: 4, filings_written: 2 }
    );
    let indices: Vec<usize> = export.skipped.iter().map(|(index, _)| *index).collect();
    assert_eq!(indices, [2, 3, 4, 5]);
    assert!(matches!(
        &export.skipped[1].1,
        SkipReason::UnreadableEntry(ZipError::InvalidPassword)
    ));
    match &export.skipped[2].1 {
        SkipReason::File {
            name,
            error: SubmissionError::InvalidJson(ContentsError::Read(error)),
        } => {
            assert_eq!(name, "CIK0000000003.json");
            assert_eq!(error.to_string(), "Invalid checksum");
        }
        other => panic!("{other:?}"),
    }
    assert!(matches!(
        &export.skipped[3].1,
        SkipReason::File { error: SubmissionError::MissingArrayField(field), .. }
            if field == "accessionNumber"
    ));
}

#[test]
fn an_archive_is_read_entry_by_entry() {
    let zip_bytes = zip_of(&[
        ("readme.txt", b"no filings"),
        ("CIK0000320193.json", RECENT.as_bytes()),
        ("CIKx.json", b"{}"),
    ]);
    let export = write_submissions_csv(zip_bytes).unwrap();
    assert_eq!(String::from_utf8(export.file).unwrap().lines().count(), 3);
    assert_eq!(
        export.stats,
        ConstructSubmissionsDataStats { files_processed: 1, files_skipped: 1, filings_written: 2 }
    );
    assert_eq!(export.skipped.len(), 1);
    assert_eq!(export.skipped[0].0, 2);
}

#[test]
fn errors_keep_what_caused_them() {
    for number in ["", "+", "x1", "1x", "18446744073709551616", "18446744073709551615x"] {
        let expected = number.parse::<u64>().unwrap_err().to_string();
        match process_submission_file(&format!("CIK{number}.json"), b"{}") {
            Err(SubmissionError::InvalidCik(error)) => assert_eq!(error.message(), expected),
            other => panic!("{other:?}"),
        }
    }
    let expected = serde_json::from_slice::<serde_json::Value>(b"{\n 1").unwrap_err().to_string();
    match process_submission_file("CIK1.json", b"{\n 1") {
        Err(SubmissionError::InvalidJson(ContentsError::Json(error))) => {
            assert_eq!(error.to_string(), expected);
        }
        other => panic!("{other:?}"),
    }
}

#[test]
fn a_zip_error_keeps_its_source() {
    let inner = ZipError::Io(std::io::Error::other("disk"));
    match process_entry(ArchiveEntry::Unreadable(inner)) {
        EntryOutcome::Skipped(SkipReason::UnreadableEntry(error)) => {
            assert_eq!(error.to_string(), "i/o error");
            assert_eq!(std::error::Error::source(&error).unwrap().to_string(), "disk");
        }
        other => panic!("{other:?}"),
    }
}

#[test]
fn only_what_holds_filings_is_read() {
    let zip_bytes = zip_of(&[("notes.txt", b"not read"), ("CIK1.json", b"read")]);
    let mut archive = SubmissionsArchive::open(zip_bytes).unwrap();
    assert_eq!(archive.len(), 2);
    assert!(matches!(
        archive.entry(0),
        ArchiveEntry::File { name, contents: Ok(bytes) } if name == "notes.txt" && bytes.is_empty()
    ));
    assert!(matches!(
        archive.entry(1),
        ArchiveEntry::File { name, contents: Ok(bytes) } if name == "CIK1.json" && bytes == b"read"
    ));
}

#[test]
fn damaged_entries_are_told_apart() {
    let mut zip_bytes = Cursor::new(Vec::new());
    {
        let mut zip = zip::ZipWriter::new(&mut zip_bytes);
        let stored =
            SimpleFileOptions::default().compression_method(zip::CompressionMethod::Stored);
        zip.start_file("CIK1.json", stored).unwrap();
        zip.write_all(RECENT.as_bytes()).unwrap();
        zip.finish().unwrap();
    }
    let mut bytes = zip_bytes.into_inner();
    let at = bytes.windows(4).position(|window| window == b"10-Q").unwrap();
    bytes[at] = b'2';
    let export = write_submissions_csv(bytes).unwrap();
    match &export.skipped[0].1 {
        SkipReason::File {
            error: SubmissionError::InvalidJson(ContentsError::Read(error)), ..
        } => assert_eq!(error.to_string(), "Invalid checksum"),
        other => panic!("{other:?}"),
    }
}

#[test]
fn outcomes_tell_entries_apart() {
    assert!(matches!(
        process_entry(ArchiveEntry::Unreadable(ZipError::FileNotFound)),
        EntryOutcome::Skipped(SkipReason::UnreadableEntry(ZipError::FileNotFound))
    ));
    assert!(matches!(process_entry(file("notes.txt", "")), EntryOutcome::Ignored));
    match process_entry(file("CIK1.json", RECENT)) {
        EntryOutcome::Written(records) => {
            assert_eq!(records.len(), 2);
            assert_eq!(records[0], ["1", "0000320193-24-000123", "2024-10-31", "10-Q"]);
        }
        other => panic!("{other:?}"),
    }
    assert!(matches!(
        process_entry(file("CIK1.json", "[")),
        EntryOutcome::Skipped(SkipReason::File { name, error: SubmissionError::InvalidJson(_) })
            if name == "CIK1.json"
    ));
}

#[test]
fn counts_add_up() {
    let mut stats = ConstructSubmissionsDataStats::new();
    stats.count(&process_entry(file("CIK1.json", RECENT)));
    stats.count(&process_entry(file("CIK1.json", "")));
    stats.count(&process_entry(file("other", "")));
    stats.count(&process_entry(file("CIK2.json", RECENT)));
    assert_eq!(
        stats,
        ConstructSubmissionsDataStats { files_processed: 2, files_skipped: 1, filings_written: 4 }
    );
}

#[test]
fn each_error_has_its_input() {
    assert!(matches!(
        process_submission_file("10.json", b"{}"),
        Err(SubmissionError::MissingCikPrefix)
    ));
    assert!(matches!(
        process_submission_file("CIKabc.json", b"{}"),
        Err(SubmissionError::InvalidCik(_))
    ));
    assert!(matches!(
        process_submission_file("CIK99999999999999999999.json", b"{}"),
        Err(SubmissionError::InvalidCik(_))
    ));
    assert!(matches!(
        process_submission_file("CIK1.json", b"{} {}"),
        Err(SubmissionError::InvalidJson(_))
    ));
    assert!(matches!(
        process_submission_file("CIK1.json", br#"{"filings": {}}"#),
        Err(SubmissionError::MissingRecentFilings)
    ));
    match process_submission_file(
        "CIK1.json",
        br#"{"filings": {"recent": {"accessionNumber": [], "filingDate": "x", "form": []}}}"#,
    ) {
        Err(SubmissionError::MissingArrayField(field)) => assert_eq!(field, "filingDate"),
        other => panic!("{other:?}"),
    }
    assert!(matches!(
        process_submission_file(
            "CIK1-submissions-001.json",
            br#"{"accessionNumber": ["a", "b"], "filingDate": ["c", "d"], "form": ["e"]}"#,
        ),
        Err(SubmissionError::MismatchedLengths)
    ));
}

#[test]
fn messages_name_the_file_or_the_field() {
    let name = "CIK7.json";
    assert_eq!(
        SubmissionError::MissingCikPrefix.message("7.json"),
        "filename does not start with CIK: 7.json"
    );
    assert_eq!(SubmissionError::InvalidCik(NumberError::Empty).message(name), "failed to parse CIK from CIK7.json");
    assert_eq!(
        SubmissionError::InvalidJson(ContentsError::Read(std::io::Error::other("x"))).message(name),
        "failed to parse submissions JSON CIK7.json"
    );
    assert_eq!(SubmissionError::MissingRecentFilings.message(name), "missing filings.recent");
    assert_eq!(
        SubmissionError::MissingArrayField("form".to_string()).message(name),
        "missing array field form"
    );
    assert_eq!(
        SubmissionError::MismatchedLengths.message(name),
        "submissions fields have mismatched lengths"
    );
}

#[test]
fn longer_columns_are_cut_to_the_accession_numbers() {
    let records = process_submission_file(
        "CIK1-submissions-001.json",
        br#"{"accessionNumber": ["a"], "filingDate": ["c", "d"], "form": ["e", "f", "g"]}"#,
    )
    .unwrap();
    assert_eq!(records, vec![["1", "a", "c", "e"]]);
}

#[test]
fn file_names_carry_the_filer() {
    assert_eq!(cik_from_filename("CIK0000320193.json").unwrap(), "320193");
    assert_eq!(cik_from_filename("CIK0000000001-submissions-001.json").unwrap(), "1");
    assert_eq!(cik_from_filename("CIK0").unwrap(), "0");
    assert_eq!(cik_from_filename("CIK+5.json").unwrap(), "5");
    assert_eq!(
        cik_from_filename("CIK18446744073709551615.json").unwrap(),
        "18446744073709551615"
    );
    assert!(cik_from_filename("CIK.json").is_err());
    assert!(cik_from_filename("-CIK1").is_err());
}

#[test]
fn cells_are_written_as_text() {
    let cells = br#"[null, true, false, -12.5, 7, 1e3, "x \"y\"", ["a", 1], {"k": null}]"#;
    let Ok(Json::Array(cells)) = Json::parse(cells) else {
        panic!("an array");
    };
    let texts: Vec<String> = cells.iter().map(csv_value).collect();
    assert_eq!(
        texts,
        ["", "true", "false", "-12.5", "7", "1000.0", "x \"y\"", "[\"a\",1]", "{\"k\":null}"]
    );
    assert_eq!(
        csv_value(&Cell::Number(JsonNumber {
            unsigned: None,
            signed: None,
            float_bits: None,
            text: "42".to_string(),
        })),
        "42"
    );
}

#[test]
fn fields_are_quoted_only_where_they_must_be() {
    let record = |form: &str| ["1".to_string(), "a b".to_string(), String::new(), form.to_string()];
    let lines = encode_records(&vec![
        record("10-K"),
        record("a,b"),
        record("say \"x\""),
        record("line\nfeed"),
        record("carriage\rreturn"),
        record("it's"),
    ]);
    assert_eq!(
        String::from_utf8(lines).unwrap(),
        "1,a b,,10-K\n\
         1,a b,,\"a,b\"\n\
         1,a b,,\"say \"\"x\"\"\"\n\
         1,a b,,\"line\nfeed\"\n\
         1,a b,,\"carriage\rreturn\"\n\
         1,a b,,it's\n"
    );
    assert_eq!(encode_records(&Vec::new()), Vec::<u8>::new());
}

#[test]
fn records_read_back_from_the_file() {
    let record = |form: &str| ["1", "", "\"", form].map(|field| field.to_string());
    let records = vec![record("a,b"), record("\"\"x\"\n"), record("é\r"), record(" plain ")];
    let mut file = csv_header();
    file.append(&mut encode_records(&records));
    let mut reader = csv::Reader::from_reader(file.as_slice());
    assert_eq!(reader.headers().unwrap(), vec!["cik", "accessionNumber", "filingDate", "form"]);
    let read: Vec<Vec<String>> = reader
        .records()
        .map(|record| record.unwrap().iter().map(|field| field.to_string()).collect())
        .collect();
    assert_eq!(read, records.iter().map(|record| record.to_vec()).collect::<Vec<Vec<String>>>());
}
