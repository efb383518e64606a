use secinfra::columns::{metadata_value_bool, metadata_value_u64};
use secinfra::double::{double_is_zero, double_to_u64};
use secinfra::json::{as_array, object_get, Cell, Json};
use secinfra::submissions::{cell_str, field_array, filings_data, holds_filings, SubmissionError};
use secinfra::text::{
    after_text, begins_with, cut_at_first, find_text, joined_text, parse_number, parse_u64, split_at_last,
    take_bytes, trim_text, u64_to_text,
};

fn cells(json: &str) -> Vec<Cell> {
    match Json::parse(json.as_bytes()) {
        Ok(Json::Array(cells)) => cells,
        other => panic!("{other:?}"),
    }
}

#[test]
fn numbers_read_back_as_they_are_written() {
    for n in [0, 7, 10, 99, 100, 320193, u64::MAX - 1, u64::MAX] {
        assert_eq!(u64_to_text(n), n.to_string());
        assert_eq!(parse_u64(&u64_to_text(n)), Some(n));
    }
}

#[test]
fn numbers_are_read_like_the_standard_library_does() {
    for text in [
        "", "+", "-", "-1", "-0", "+5", "++5", "05", "0005", " 5", "5 ", "5a", "18446744073709551615",
        "18446744073709551616", "00018446744073709551615", "99999999999999999999", "٣", "1_000",
        "18446744073709551615x", "18446744073709551616x", "x18446744073709551616",
    ] {
        assert_eq!(parse_u64(text), text.parse::<u64>().ok(), "{text:?}");
        assert_eq!(
            parse_number(text).map_err(|error| error.message()),
            text.parse::<u64>().map_err(|error| error.to_string()),
            "{text:?}"
        );
    }
}

#[test]
fn texts_are_cut_and_found() {
    assert_eq!(cut_at_first("CIK1.a.b", '.'), "CIK1");
    assert_eq!(cut_at_first("none", '.'), "none");
    assert_eq!(split_at_last("a=b=c", '='), Some(("a=b", "c")));
    assert_eq!(split_at_last("abc", '='), None);
    assert_eq!(split_at_last("é=ü", '='), Some(("é", "ü")));
    assert_eq!(find_text("xaab", "ab"), Some(2));
    assert_eq!(find_text("xaab", ""), Some(0));
    assert_eq!(find_text("xaab", "ba"), None);
    assert_eq!(after_text("a Filed:</b> b Filed:</b> c", "Filed:</b>"), Some(" b Filed:</b> c"));
    assert_eq!(after_text("a", "b"), None);
    assert!(begins_with("urn:tag:sec.gov,2008", "urn:tag:sec.gov"));
    assert!(!begins_with("urn", "urn:tag:sec.gov"));
    assert_eq!(joined_text("a", "b"), "ab");
}

#[test]
fn white_space_is_trimmed_like_the_standard_library_does() {
    for text in ["", " ", "  a b\t\n", "a", "\u{3000}x\u{85}\u{a0}", "\u{200b}y ", "\u{1680}\u{2009}z\u{205f}"] {
        assert_eq!(trim_text(text), text.trim());
    }
}

#[test]
fn bytes_are_taken_only_in_whole_characters() {
    assert_eq!(take_bytes("2026-05-18 <b>", 10), Some("2026-05-18"));
    assert_eq!(take_bytes("2026-05-18", 10), Some("2026-05-18"));
    assert_eq!(take_bytes("2026-05-1", 10), None);
    assert_eq!(take_bytes("123456789é", 10), None);
    assert_eq!(take_bytes("12345678é", 10), Some("12345678é"));
}

#[test]
fn documents_are_looked_up() {
    let json = Json::parse(br#"{"a": {"b": [1, 2]}, "c": 3, "a2": null, "a": {"b": [4]}}"#).unwrap();
    let inner = object_get(object_get(&json, "a").unwrap(), "b").unwrap();
    assert_eq!(as_array(inner).unwrap().len(), 1);
    assert!(object_get(&json, "d").is_none());
    assert!(as_array(&json).is_none());
    assert!(object_get(inner, "a").is_none());
    assert!(matches!(object_get(&json, "c"), Some(Json::Scalar)));
    assert!(Json::parse(b"").is_err());
    assert!(Json::parse(b"{\"a\": 1,}").is_err());
    assert!(Json::parse(b"\"\xff\"").is_err());
    assert_eq!(
        Json::parse(b"").unwrap_err().to_string(),
        "EOF while parsing a value at line 1 column 0"
    );
}

#[test]
fn filings_stand_in_two_places() {
    let whole = Json::parse(br#"{"filings": {"recent": {"form": ["8-K"]}}}"#).unwrap();
    let shard = Json::parse(br#"{"form": ["8-K", "4"]}"#).unwrap();
    let recent = filings_data("CIK1.json", &whole).unwrap();
    assert_eq!(field_array(recent, "form").unwrap().len(), 1);
    let all = filings_data("CIK1-submissions-001.json", &shard).unwrap();
    assert_eq!(field_array(all, "form").unwrap().len(), 2);
    assert!(matches!(
        filings_data("CIK1.json", &shard),
        Err(SubmissionError::MissingRecentFilings)
    ));
    assert!(matches!(
        field_array(all, "size"),
        Err(SubmissionError::MissingArrayField(_))
    ));
    assert!(holds_filings("CIK1.json"));
    assert!(!holds_filings("cik1.json"));
}

#[test]
fn cells_become_numbers() {
    let numbers: Vec<u64> = cells(
        r#"[5, -5, 2.9, -0.5, 1e30, -1e30, 18446744073709551615, true, false, "12", "x", null, [1], {}]"#,
    )
    .iter()
    .map(metadata_value_u64)
    .collect();
    assert_eq!(
        numbers,
        [5, 0, 2, 0, u64::MAX, 0, u64::MAX, 1, 0, 12, 0, 0, 0, 0]
    );
}

#[test]
fn cells_become_truth_values() {
    let truths: Vec<bool> = cells(
        r#"[1, 0, -1, 0.0, -0.0, 0.1, 18446744073709551615, true, false, "1", "true", "TRUE", "True", "tRUE", "0", "", null, [1], {}]"#,
    )
    .iter()
    .map(metadata_value_bool)
    .collect();
    assert_eq!(
        truths,
        [
            true, false, true, false, false, true, true, true, false, true, true, true, true,
            false, false, false, false, false, false,
        ]
    );
}

#[test]
fn cells_become_text() {
    let cells = cells(r#"[null, true, 1.50, "a", [1, 2], {"b": "c"}]"#);
    let texts: Vec<&str> = cells.iter().map(cell_str).collect();
    assert_eq!(texts, ["", "true", "1.5", "a", "[1,2]", "{\"b\":\"c\"}"]);
}

#[test]
fn doubles_are_truncated_like_a_cast_does() {
    for value in [
        0.0, -0.0, 0.5, 0.999, 1.0, 1.5, 2.0, 255.75, 1e10, 4503599627370497.5, 9007199254740993.0,
        1.8446744073709550e19, 1.8446744073709552e19, 1e300, -1.0, -1e300, f64::MIN_POSITIVE, 5e-324,
        f64::INFINITY, f64::NEG_INFINITY, f64::NAN, f64::MAX,
    ] {
        assert_eq!(double_to_u64(value.to_bits()), value as u64, "{value}");
        assert_eq!(double_is_zero(value.to_bits()), value == 0.0, "{value}");
    }
}
