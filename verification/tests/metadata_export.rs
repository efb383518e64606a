use std::io::{Cursor, Write};

use arrow_array::{Array, BooleanArray, RecordBatch, StringArray, UInt64Array};
use arrow_schema::DataType;
use secinfra::columns::{uint64_array, ColumnBatch, ColumnBuffer, ColumnKind, BATCH_TARGET_ROWS};
use secinfra::construct_submissions_data::process_submission_file;
use secinfra::construct_submissions_metadata::{
    cik_from_filename, ConstructSubmissionsMetadataStats, MetadataError, MetadataExport,
};
use secinfra::json::{Cell, Json};
use secinfra::metadata_archive::{write_entries, write_submissions_metadata};
use secinfra::metadata_batch::{column_arrays, SubmissionBatchBuffer};
use secinfra::metadata_columns::{
    column_kind, column_names, default_columns, resolve_columns, submissions_schema, ColumnError,
    ColumnSpec,
};
use secinfra::submissions::{ArchiveEntry, SubmissionError};
use zip::result::ZipError;
use zip::write::SimpleFileOptions;

fn columns(names: &[&str]) -> Vec<ColumnSpec> {
    resolve_columns(Some(names.iter().map(|name| name.to_string()).collect())).unwrap()
}

fn file(name: &str, contents: &str) -> ArchiveEntry {
    ArchiveEntry::File {
        name: name.to_string(),
        contents: Ok(contents.as_bytes().to_vec()),
    }
}

fn numbers(batch: &RecordBatch, column: usize) -> Vec<u64> {
    let array = batch.column(column).as_any().downcast_ref::<UInt64Array>().unwrap();
    array.values().to_vec()
}

fn texts(batch: &RecordBatch, column: usize) -> Vec<String> {
    let array = batch.column(column).as_any().downcast_ref::<StringArray>().unwrap();
    (0..array.len()).map(|i| array.value(i).to_string()).collect()
}

fn truths(batch: &RecordBatch, column: usize) -> Vec<bool> {
    let array = batch.column(column).as_any().downcast_ref::<BooleanArray>().unwrap();
    (0..array.len()).map(|i| array.value(i)).collect()
}

fn shard(rows: usize) -> String {
    let accessions: Vec<String> = (0..rows).map(|i| format!("\"{i}\"")).collect();
    format!("{{\"accessionNumber\": [{}]}}", accessions.join(","))
}

const SHARD: &str = r#"{
    "accessionNumber": ["a-1", "a-2", "a-3"],
    "form": ["10-K", null, 7],
    "size": [12, "34", null],
    "isXBRL": [1, 0, "true"]
}"#;

#[test]
fn default_columns_are_those_of_the_feed() {
    let columns = resolve_columns(None).unwrap();
    assert_eq!(column_names(&columns), default_columns());
    assert_eq!(
        column_names(&columns),
        [
            "accessionNumber",
            "filingDate",
            "reportDate",
            "acceptanceDateTime",
            "act",
            "form",
            "fileNumber",
            "filmNumber",
            "items",
            "core_type",
            "size",
            "isXBRL",
            "isInlineXBRL",
            "isXBRLNumeric",
            "primaryDocument",
            "primaryDocDescription",
        ]
    );
    let kinds: Vec<ColumnKind> = columns.iter().map(|column| column.kind).collect();
    assert_eq!(kinds[10], ColumnKind::UInt64);
    assert_eq!(kinds[11..14], [ColumnKind::Boolean; 3]);
    assert_eq!(kinds.iter().filter(|kind| **kind == ColumnKind::Utf8).count(), 12);
}

#[test]
fn kinds_go_by_name() {
    assert_eq!(column_kind("size"), ColumnKind::UInt64);
    assert_eq!(column_kind("isXBRL"), ColumnKind::Boolean);
    assert_eq!(column_kind("isInlineXBRL"), ColumnKind::Boolean);
    assert_eq!(column_kind("isXBRLNumeric"), ColumnKind::Boolean);
    assert_eq!(column_kind("Size"), ColumnKind::Utf8);
    assert_eq!(column_kind(""), ColumnKind::Utf8);
}

#[test]
fn columns_must_be_named_once_and_not_cik() {
    let resolve = |names: &[&str]| {
        resolve_columns(Some(names.iter().map(|name| name.to_string()).collect()))
    };
    assert!(matches!(resolve(&[]), Err(ColumnError::NoColumns)));
    assert!(matches!(resolve(&["form", ""]), Err(ColumnError::EmptyName)));
    assert!(matches!(resolve(&["form", "cik"]), Err(ColumnError::CikRequested)));
    match resolve(&["form", "size", "form", ""]) {
        Err(ColumnError::Duplicate(name)) => assert_eq!(name, "form"),
        other => panic!("{other:?}"),
    }
    assert_eq!(column_names(&resolve(&["CIK", "form"]).unwrap()), ["CIK", "form"]);
}

#[test]
fn column_errors_have_words() {
    assert_eq!(
        ColumnError::NoColumns.message(),
        "at least one submissions metadata column is required"
    );
    assert_eq!(
        ColumnError::EmptyName.message(),
        "submissions metadata column name cannot be empty"
    );
    assert_eq!(
        ColumnError::CikRequested.message(),
        "cik is always included and cannot be requested as a submissions metadata column"
    );
    assert_eq!(
        ColumnError::Duplicate("form".to_string()).message(),
        "duplicate submissions metadata column form"
    );
}

#[test]
fn the_schema_starts_with_the_filer() {
    let schema = submissions_schema(&columns(&["form", "size", "isXBRL"]));
    let fields: Vec<(&str, &DataType, bool)> = schema
        .fields()
        .iter()
        .map(|field| (field.name().as_str(), field.data_type(), field.is_nullable()))
        .collect();
    assert_eq!(
        fields,
        [
            ("cik", &DataType::UInt64, false),
            ("form", &DataType::Utf8, false),
            ("size", &DataType::UInt64, false),
            ("isXBRL", &DataType::Boolean, false),
        ]
    );
}

#[test]
fn filings_become_rows() {
    let columns = columns(&["accessionNumber", "form", "size", "isXBRL"]);
    let (batches, stats) =
        write_entries(vec![file("CIK0000000042-submissions-001.json", SHARD)], columns).unwrap();
    assert_eq!(batches.len(), 1);
    let batch: &RecordBatch = &batches[0].batch;
    assert_eq!(numbers(batch, 0), [42, 42, 42]);
    assert_eq!(texts(batch, 1), ["a-1", "a-2", "a-3"]);
    assert_eq!(texts(batch, 2), ["10-K", "", "7"]);
    assert_eq!(numbers(batch, 3), [12, 34, 0]);
    assert_eq!(truths(batch, 4), [true, false, true]);
    assert_eq!(
        stats,
        ConstructSubmissionsMetadataStats {
            files_processed: 1,
            files_skipped: 0,
            filings_written: 3,
            batches_written: 1,
        }
    );
}

#[test]
fn batches_hold_the_filings_in_order() {
    let entries = vec![
        file("CIK1-submissions-001.json", &shard(60_000)),
        file("readme.txt", "ignored"),
        file("CIK2-submissions-001.json", &shard(60_000)),
        file("CIK3-submissions-001.json", &shard(0)),
        file("CIK4-submissions-001.json", &shard(2)),
    ];
    let (batches, stats) = write_entries(entries, columns(&["accessionNumber"])).unwrap();
    assert_eq!(batches.len(), 2);
    assert!(batches[0].batch.num_rows() >= BATCH_TARGET_ROWS);
    let ciks = numbers(&batches[0].batch, 0);
    assert_eq!(ciks.len(), 120_000);
    assert!(ciks[..60_000].iter().all(|cik| *cik == 1));
    assert!(ciks[60_000..].iter().all(|cik| *cik == 2));
    let accessions = texts(&batches[0].batch, 1);
    assert_eq!(accessions[59_999], "59999");
    assert_eq!(accessions[60_000], "0");
    assert_eq!(numbers(&batches[1].batch, 0), [4, 4]);
    assert_eq!(texts(&batches[1].batch, 1), ["0", "1"]);
    assert_eq!(
        stats,
        ConstructSubmissionsMetadataStats {
            files_processed: 4,
            files_skipped: 0,
            filings_written: 120_002,
            batches_written: 2,
        }
    );
}

#[test]
fn no_filings_make_no_batch() {
    let (batches, stats) =
        write_entries(vec![file("CIK1-submissions-001.json", &shard(0))], columns(&["accessionNumber"]))
            .unwrap();
    assert!(batches.is_empty());
    assert_eq!((stats.files_processed, stats.batches_written), (1, 0));
}

#[test]
fn an_archive_is_exported_from_its_bytes() {
    let mut zip_bytes = Cursor::new(Vec::new());
    {
        let mut zip = zip::ZipWriter::new(&mut zip_bytes);
        zip.start_file("CIK0000000005-submissions-001.json", SimpleFileOptions::default()).unwrap();
        zip.write_all(SHARD.as_bytes()).unwrap();
        zip.start_file("other.json", SimpleFileOptions::default()).unwrap();
        zip.write_all(b"{").unwrap();
        zip.finish().unwrap();
    }
    let bytes = zip_bytes.into_inner();
    let (batches, stats) =
        write_submissions_metadata(bytes.clone(), columns(&["form"])).unwrap().unwrap();
    assert_eq!(texts(&batches[0].batch, 1), ["10-K", "", "7"]);
    assert_eq!(stats.filings_written, 3);
    assert!(matches!(
        write_submissions_metadata(bytes, columns(&["act"])).unwrap(),
        Err((0, MetadataError::File(SubmissionError::MissingArrayField(_))))
    ));
    assert!(write_submissions_metadata(vec![1, 2, 3], columns(&["form"])).is_err());
}

#[test]
fn the_first_bad_entry_stops_the_export() {
    let good = || file("CIK1-submissions-001.json", SHARD);
    let run = |entries: Vec<ArchiveEntry>| match write_entries(entries, columns(&["form"])) {
        Ok(_) => panic!("an error"),
        Err(error) => error,
    };
    assert!(matches!(
        run(vec![good(), ArchiveEntry::Unreadable(ZipError::FileNotFound)]),
        (1, MetadataError::UnreadableEntry(ZipError::FileNotFound))
    ));
    assert!(matches!(
        run(vec![ArchiveEntry::File {
            name: "CIKx".to_string(),
            contents: Err(std::io::Error::other("why")),
        }]),
        (0, MetadataError::UnreadableContents(error)) if error.to_string() == "why"
    ));
    assert!(matches!(
        run(vec![good(), good(), file("CIKx.json", "{}"), ArchiveEntry::Unreadable(ZipError::FileNotFound)]),
        (2, MetadataError::File(SubmissionError::InvalidCik(_)))
    ));
    assert!(matches!(
        run(vec![file("CIK1.json", "nope")]),
        (0, MetadataError::File(SubmissionError::InvalidJson(_)))
    ));
    assert!(matches!(
        run(vec![file("CIK1.json", "{}")]),
        (0, MetadataError::File(SubmissionError::MissingRecentFilings))
    ));
    assert!(matches!(
        run(vec![file("CIK1-submissions-001.json", r#"{"accessionNumber": ["a"], "form": []}"#)]),
        (0, MetadataError::File(SubmissionError::MismatchedLengths))
    ));
}

#[test]
fn a_failed_file_leaves_the_export_as_it_was() {
    let mut export = MetadataExport::new(columns(&["form", "size"]));
    assert_eq!(
        export.append_submission_bytes("CIK1-submissions-001.json", SHARD.as_bytes()).unwrap(),
        3
    );
    let short = r#"{"accessionNumber": ["a", "b"], "form": ["x", "y"], "size": [1]}"#;
    assert!(export.append_submission_bytes("CIK1-submissions-001.json", short.as_bytes()).is_err());
    assert_eq!(export.buffer.len(), 3);
    assert_eq!(export.stats.files_processed, 1);
    assert_eq!(export.stats.filings_written, 3);
    assert_eq!(export.buffer.files, 1);
    assert_eq!(export.buffer.json_bytes, SHARD.len());
}

#[test]
fn counts_do_not_overflow() {
    let mut export = MetadataExport::new(columns(&["form"]));
    export.stats.filings_written = usize::MAX - 2;
    assert!(matches!(
        export.append_submission_bytes("CIK1-submissions-001.json", SHARD.as_bytes()),
        Err(MetadataError::TooLarge)
    ));
    assert!(export.buffer.is_empty());
    export.stats.filings_written = usize::MAX - 3;
    assert!(export.append_submission_bytes("CIK1-submissions-001.json", SHARD.as_bytes()).is_ok());
}

#[test]
fn a_flush_hands_everything_out() {
    let mut export = MetadataExport::new(columns(&["form"]));
    assert!(export.flush_batch().is_none());
    assert!(matches!(
        export.add_entry(file("CIK9-submissions-001.json", SHARD)),
        Ok(None)
    ));
    let batch = export.flush_batch().unwrap();
    assert_eq!(batch.ciks, [9, 9, 9]);
    assert_eq!(batch.files, 1);
    assert!(export.buffer.is_empty());
    assert_eq!(export.buffer.files, 0);
    assert_eq!(export.buffer.json_bytes, 0);
    assert_eq!(export.stats.batches_written, 0);
    export.batch_written();
    assert_eq!(export.stats.batches_written, 1);
    assert!(export.flush_batch().is_none());
}

#[test]
fn a_batch_must_fit_its_schema() {
    let form = columns(&["form"]);
    let size = columns(&["size"]);
    let data = Json::parse(SHARD.as_bytes()).unwrap();
    let mut export = MetadataExport::new(columns(&["form"]));
    assert_eq!(
        export.append_document("CIK1-submissions-001.json", 8, &data, 100).unwrap(),
        3
    );
    assert_eq!(export.buffer.json_bytes, 100);
    let batch = export.flush_batch().unwrap();
    assert!(batch.into_record_batch(submissions_schema(&size)).is_err());
    let empty = SubmissionBatchBuffer::new(&form).into_record_batch(submissions_schema(&form));
    let ColumnBatch { batch } = empty.unwrap();
    assert_eq!(batch.num_rows(), 0);
    assert_eq!(batch.num_columns(), 2);
}

#[test]
fn columns_are_taken_and_refilled() {
    let cells = vec![Cell::Bool(true), Cell::Text("3".to_string()), Cell::Null];
    for kind in [ColumnKind::Utf8, ColumnKind::UInt64, ColumnKind::Boolean] {
        let mut column = ColumnBuffer::new(kind);
        assert!(column.has_room_for(&cells, 3));
        column.push_all(&cells, 2);
        column.push(&cells[2]);
        let taken = column.take();
        assert_eq!(taken.into_array().len(), 3);
        assert_eq!(column.into_array().len(), 0);
    }
    assert_eq!(uint64_array(&vec![3, 1, 2]).len(), 3);
}

#[test]
fn arrays_of_a_document_are_found_by_column() {
    let data = Json::parse(SHARD.as_bytes()).unwrap();
    let (rows, arrays) =
        column_arrays("CIK1-submissions-001.json", 1, &data, &columns(&["size", "form"])).unwrap();
    assert_eq!(rows, 3);
    assert_eq!(arrays.len(), 2);
    assert!(matches!(arrays[1][0], Cell::Text(_)));
    assert!(column_arrays("CIK1.json", 1, &data, &columns(&["size"])).is_err());
}

#[test]
fn names_are_read_as_numbers() {
    assert_eq!(cik_from_filename("CIK0000320193.json").unwrap(), 320193);
    assert!(matches!(cik_from_filename("x"), Err(SubmissionError::MissingCikPrefix)));
    assert!(matches!(cik_from_filename("CIK"), Err(SubmissionError::InvalidCik(_))));
}

#[test]
fn both_exports_agree() {
    let contents = r#"{"accessionNumber": ["a", 2], "filingDate": [null, true], "form": ["x", ["y"]]}"#;
    let name = "CIK0000000077-submissions-001.json";
    let records = process_submission_file(name, contents.as_bytes()).unwrap();
    let (batches, _) = write_entries(
        vec![file(name, contents)],
        columns(&["accessionNumber", "filingDate", "form"]),
    )
    .unwrap();
    let batch = &batches[0].batch;
    assert_eq!(records.len(), batch.num_rows());
    for (i, record) in records.iter().enumerate() {
        assert_eq!(record[0], numbers(batch, 0)[i].to_string());
        assert_eq!(record[1], texts(batch, 1)[i]);
        assert_eq!(record[2], texts(batch, 2)[i]);
        assert_eq!(record[3], texts(batch, 3)[i]);
    }
}
