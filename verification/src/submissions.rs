//! What the exports of the SEC submissions archive share: which entries hold
//! filings, whose they are, and where in the JSON the filings stand.
use vstd::prelude::*;

use crate::archive;
use crate::json::{self, as_array, object_get, Cell, CellView, Json, JsonView};
use crate::text::{
    self, begins_with, cut_at_first, find_text, joined_text, parse_number, NumberError,
};

verus! {

/// An entry of the archive, as far as it could be read.
#[derive(Debug)]
pub enum ArchiveEntry {
    /// The entry could not be opened.
    Unreadable(zip::result::ZipError),
    /// The contents, or why they could not be read.
    File { name: String, contents: Result<Vec<u8>, std::io::Error> },
}

pub enum EntryView {
    Unreadable(Seq<Seq<char>>),
    File { name: Seq<char>, contents: Result<Seq<u8>, Seq<Seq<char>>> },
}

impl View for ArchiveEntry {
    type V = EntryView;

    open spec fn view(&self) -> EntryView {
        match self {
            ArchiveEntry::Unreadable(error) => EntryView::Unreadable(
                archive::zip_error_words(*error),
            ),
            ArchiveEntry::File { name, contents } => EntryView::File {
                name: name@,
                contents: match contents {
                    Ok(bytes) => Ok(bytes@),
                    Err(error) => Err(archive::io_error_words(*error)),
                },
            },
        }
    }
}

pub open spec fn entries_view(entries: Seq<ArchiveEntry>) -> Seq<EntryView> {
    Seq::new(entries.len(), |i: int| entries[i]@)
}

/// An entry as it is read: the contents are left aside where it holds no filings.
pub open spec fn as_read(entry: EntryView) -> EntryView {
    match entry {
        EntryView::File { name, contents } => if "CIK"@.is_prefix_of(name) {
            entry
        } else {
            EntryView::File { name, contents: Ok(Seq::empty()) }
        },
        EntryView::Unreadable(_) => entry,
    }
}

/// Why contents are not a JSON text.
#[derive(Debug)]
pub enum ContentsError {
    Json(serde_json::Error),
    /// They could not be read.
    Read(std::io::Error),
}

impl View for ContentsError {
    type V = Seq<Seq<char>>;

    /// The words for the error, and behind them those for what caused it.
    open spec fn view(&self) -> Seq<Seq<char>> {
        match self {
            ContentsError::Json(error) => json::json_error_words(*error),
            ContentsError::Read(error) => archive::io_error_words(*error),
        }
    }
}

/// Why the filings of an archive entry could not be read.
#[derive(Debug)]
pub enum SubmissionError {
    /// The entry's name does not start with `CIK`.
    MissingCikPrefix,
    /// What follows `CIK` in the entry's name is not a number.
    InvalidCik(NumberError),
    /// The contents are not a JSON text.
    InvalidJson(ContentsError),
    /// There is nothing under `filings.recent`.
    MissingRecentFilings,
    /// The filings have no array of that name.
    MissingArrayField(String),
    /// An array is shorter than that of the accession numbers.
    MismatchedLengths,
}

pub enum SubmissionErrorView {
    MissingCikPrefix,
    InvalidCik(NumberError),
    InvalidJson(Seq<Seq<char>>),
    MissingRecentFilings,
    MissingArrayField(Seq<char>),
    MismatchedLengths,
}

impl View for SubmissionError {
    type V = SubmissionErrorView;

    open spec fn view(&self) -> SubmissionErrorView {
        match self {
            SubmissionError::MissingCikPrefix => SubmissionErrorView::MissingCikPrefix,
            SubmissionError::InvalidCik(error) => SubmissionErrorView::InvalidCik(*error),
            SubmissionError::InvalidJson(error) => SubmissionErrorView::InvalidJson(error@),
            SubmissionError::MissingRecentFilings => SubmissionErrorView::MissingRecentFilings,
            SubmissionError::MissingArrayField(field) => SubmissionErrorView::MissingArrayField(
                field@,
            ),
            SubmissionError::MismatchedLengths => SubmissionErrorView::MismatchedLengths,
        }
    }
}

/// The words for an error in an entry of that name.
pub open spec fn error_message(error: SubmissionErrorView, filename: Seq<char>) -> Seq<char> {
    match error {
        SubmissionErrorView::MissingCikPrefix => "filename does not start with CIK: "@ + filename,
        SubmissionErrorView::InvalidCik(_) => "failed to parse CIK from "@ + filename,
        SubmissionErrorView::InvalidJson(_) => "failed to parse submissions JSON "@ + filename,
        SubmissionErrorView::MissingRecentFilings => "missing filings.recent"@,
        SubmissionErrorView::MissingArrayField(field) => "missing array field "@ + field,
        SubmissionErrorView::MismatchedLengths => "submissions fields have mismatched lengths"@,
    }
}

impl SubmissionError {
    /// The words for the error in an entry of that name.
    pub fn message(&self, filename: &str) -> (message: String)
        ensures
            message@ == error_message(self@, filename@),
    {
        match self {
            SubmissionError::MissingCikPrefix => joined_text(
                "filename does not start with CIK: ",
                filename,
            ),
            SubmissionError::InvalidCik(_) => joined_text("failed to parse CIK from ", filename),
            SubmissionError::InvalidJson(_) => joined_text(
                "failed to parse submissions JSON ",
                filename,
            ),
            SubmissionError::MissingRecentFilings => "missing filings.recent".to_owned(),
            SubmissionError::MissingArrayField(field) => joined_text(
                "missing array field ",
                field.as_str(),
            ),
            SubmissionError::MismatchedLengths => {
                "submissions fields have mismatched lengths".to_owned()
            },
        }
    }
}

/// The part of an entry's name before its first `.` and its first `-`.
pub open spec fn stem(filename: Seq<char>) -> Seq<char> {
    text::before_first(text::before_first(filename, '.'), '-')
}

/// The number of the filer whose filings an entry of that name holds.
pub open spec fn cik_of(filename: Seq<char>) -> Result<u64, SubmissionErrorView> {
    if !"CIK"@.is_prefix_of(stem(filename)) {
        Err(SubmissionErrorView::MissingCikPrefix)
    } else {
        match text::read_u64(stem(filename).skip("CIK"@.len() as int)) {
            Some(cik) => Ok(cik),
            None => Err(
                SubmissionErrorView::InvalidCik(
                    text::number_fault(stem(filename).skip("CIK"@.len() as int))->0,
                ),
            ),
        }
    }
}

/// The part of a document that holds the filings: all of it for a shard, which
/// has `submissions` in its name, else what stands under `filings.recent`.
pub open spec fn filings_of(filename: Seq<char>, data: JsonView) -> Option<JsonView> {
    if text::occurs_in(filename, "submissions"@) {
        Some(data)
    } else {
        match data.get("filings"@) {
            Some(filings) => filings.get("recent"@),
            None => None,
        }
    }
}

/// The cells of the array of that name.
pub open spec fn field_cells(filings: JsonView, field: Seq<char>) -> Option<Seq<CellView>> {
    match filings.get(field) {
        Some(value) => value.cells(),
        None => None,
    }
}

/// A cell as text: nothing for null, a string as it is, anything else as JSON
/// prints it.
pub open spec fn cell_text(cell: CellView) -> Seq<char> {
    match cell {
        CellView::Null => Seq::empty(),
        CellView::Bool(b) => if b {
            "true"@
        } else {
            "false"@
        },
        CellView::Number(number) => number.text,
        CellView::Text(s) => s,
        CellView::Nested(s) => s,
    }
}

/// A cell as text.
pub fn cell_str(cell: &Cell) -> (text: &str)
    ensures
        text@ == cell_text(cell@),
{
    match cell {
        Cell::Null => {
            proof {
                reveal_strlit("");
            }
            assert(""@ =~= Seq::empty());
            ""
        },
        Cell::Bool(value) => if *value {
            "true"
        } else {
            "false"
        },
        Cell::Number(value) => value.text.as_str(),
        Cell::Text(value) => value.as_str(),
        Cell::Nested(text) => text.as_str(),
    }
}

/// Whether an archive entry of that name holds filings.
pub fn holds_filings(filename: &str) -> (yes: bool)
    ensures
        yes == "CIK"@.is_prefix_of(filename@),
{
    begins_with(filename, "CIK")
}

/// The number of the filer whose filings an entry of that name holds.
pub fn cik_number(filename: &str) -> (cik: Result<u64, SubmissionError>)
    ensures
        match cik {
            Ok(cik) => cik_of(filename@) == Ok::<u64, SubmissionErrorView>(cik),
            Err(error) => cik_of(filename@) == Err::<u64, SubmissionErrorView>(error@),
        },
{
    let name = cut_at_first(cut_at_first(filename, '.'), '-');
    if !begins_with(name, "CIK") {
        return Err(SubmissionError::MissingCikPrefix);
    }
    proof {
        reveal_strlit("CIK");
        assert(name@.subrange(3, name@.len() as int) =~= name@.skip(3));
    }
    match parse_number(name.substring_char(3, name.unicode_len())) {
        Ok(cik) => Ok(cik),
        Err(error) => Err(SubmissionError::InvalidCik(error)),
    }
}

/// The part of a document that holds the filings.
pub fn filings_data<'a>(filename: &str, data: &'a Json) -> (filings: Result<
    &'a Json,
    SubmissionError,
>)
    ensures
        match filings {
            Ok(filings) => filings_of(filename@, data@) == Some(filings@),
            Err(error) => filings_of(filename@, data@) is None && error@
                == SubmissionErrorView::MissingRecentFilings,
        },
{
    if find_text(filename, "submissions").is_some() {
        return Ok(data);
    }
    match object_get(data, "filings") {
        Some(filings) => match object_get(filings, "recent") {
            Some(recent) => Ok(recent),
            None => Err(SubmissionError::MissingRecentFilings),
        },
        None => Err(SubmissionError::MissingRecentFilings),
    }
}

/// The cells of the array of that name.
pub fn field_array<'a>(filings: &'a Json, field: &str) -> (cells: Result<
    &'a Vec<Cell>,
    SubmissionError,
>)
    ensures
        match cells {
            Ok(cells) => field_cells(filings@, field@) == Some(json::cells_view(cells@)),
            Err(error) => field_cells(filings@, field@) is None && error@
                == SubmissionErrorView::MissingArrayField(field@),
        },
{
    match object_get(filings, field) {
        Some(value) => match as_array(value) {
            Some(cells) => Ok(cells),
            None => Err(SubmissionError::MissingArrayField(field.to_owned())),
        },
        None => Err(SubmissionError::MissingArrayField(field.to_owned())),
    }
}

/// An entry named `CIK`, a number in digits with any number of leading zeros, and a
/// suffix that starts with `.` or `-`, belongs to the filer with that number.
pub proof fn law_file_names_carry_the_filer(digits: Seq<char>, suffix: Seq<char>)
    requires
        digits.len() > 0,
        text::all_digits(digits),
        text::digits_value(digits) <= u64::MAX,
        suffix.len() == 0 || suffix[0] == '.' || suffix[0] == '-',
    ensures
        cik_of("CIK"@ + digits + suffix) == Ok::<u64, SubmissionErrorView>(
            text::digits_value(digits) as u64,
        ),
{
    reveal_strlit("CIK");
    let name = "CIK"@ + digits;
    let full = name + suffix;
    assert forall|i: int| 0 <= i < name.len() implies name[i] != '.' && name[i] != '-' by {
        if i >= 3 {
            assert(text::is_digit(digits[i - 3]));
        }
    }
    if suffix.len() == 0 || suffix[0] == '.' {
        text::lemma_before_first_of_concat(name, suffix, '.');
        text::lemma_before_first_of_concat(name, Seq::empty(), '-');
        assert(name + Seq::empty() =~= name);
    } else {
        let rest = text::before_first(suffix, '.');
        text::lemma_before_first_extends(name, suffix, '.');
        assert(rest[0] == '-');
        text::lemma_before_first_of_concat(name, rest, '-');
    }
    assert(stem(full) == name);
    assert("CIK"@ =~= name.subrange(0, 3));
    assert(name.skip(3) =~= digits);
    assert(text::is_digit(digits[0]));
}

} // verus!
