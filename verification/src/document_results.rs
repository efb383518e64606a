//! What the functions that open archives, read documents and tell errors give back.
use vstd::prelude::*;

use crate::archive::{self, SubmissionsArchive};
use crate::construct_submissions_data::{self, csv_value};
use crate::construct_submissions_metadata;
use crate::document_laws;
use crate::json::{as_array, object_get, Cell, Json, JsonView};
use crate::metadata_columns::ColumnError;
use crate::submissions::{
    self, cell_str, cik_number, field_array, filings_data, holds_filings, ArchiveEntry,
    SubmissionError, SubmissionErrorView,
};
use crate::text;

verus! {

/// What stands under a key is the value of the first entry that has it, and there is
/// nothing only where none has it.
pub proof fn law_result_of_looking_up(
    entries: Vec<(String, Json)>,
    key: &str,
    found: Option<&Json>,
    i: int,
)
    requires
        call_ensures(object_get, (&Json::Object(entries), key), found),
        0 <= i < entries@.len(),
    ensures
        entries@[i].0@ == key@ && (forall|j: int|
            0 <= j < i ==> (#[trigger] entries@[j]).0@ != key@) ==> found is Some && (found->0)@
            == entries@[i].1@,
        found is None ==> entries@[i].0@ != key@,
{
    let document = Json::Object(entries);
    let all = document@->Object_0;
    assert forall|j: int| 0 <= j < entries@.len() implies #[trigger] all[j] == (
        entries@[j].0@,
        entries@[j].1@,
    ) by {
        document_laws::law_documents_are_viewed_whole(document, j);
    }
    document_laws::law_documents_are_viewed_whole(document, i);
    if entries@[i].0@ == key@ {
        if forall|j: int| 0 <= j < i ==> (#[trigger] entries@[j]).0@ != key@ {
            let front = all.take(i);
            let back = all.skip(i + 1);
            assert forall|j: int| 0 <= j < front.len() implies (#[trigger] front[j]).0 != key@ by {
                assert(entries@[j].0@ != key@);
            }
            assert(all =~= front + seq![(key@, entries@[i].1@)] + back);
            document_laws::law_first_entry_is_found(front, key@, entries@[i].1@, back);
        }
        if found is None {
            lemma_keys_are_found(all, key@, i);
        }
    }
}

proof fn lemma_keys_are_found(entries: Seq<(Seq<char>, JsonView)>, key: Seq<char>, i: int)
    requires
        0 <= i < entries.len(),
        entries[i].0 == key,
    ensures
        crate::json::lookup(entries, key) is Some,
    decreases entries.len(),
{
    if entries[0].0 != key {
        assert(entries.skip(1)[i - 1] == entries[i]);
        lemma_keys_are_found(entries.skip(1), key, i - 1);
    }
}

/// Only an array has cells, and they are all its cells.
pub proof fn law_result_of_opening_an_array(value: Json, cells: Option<&Vec<Cell>>, i: int)
    requires
        call_ensures(as_array, (&value,), cells),
    ensures
        match value {
            Json::Array(all) => {
                &&& cells is Some
                &&& cells->0@.len() == all@.len()
                &&& 0 <= i < all@.len() ==> cells->0@[i]@ == all@[i]@
            },
            _ => cells is None,
        },
{
    if let Json::Array(all) = value {
        let viewed = crate::json::cells_view(all@);
        let found = crate::json::cells_view(cells->0@);
        assert(viewed == found);
        assert(found.len() == cells->0@.len());
        if 0 <= i < all@.len() {
            assert(viewed[i] == all@[i]@);
            assert(found[i] == cells->0@[i]@);
        }
    }
}

/// Wherever `submissions` stands in a name, the filings are the whole document.
pub proof fn law_result_for_a_shard(
    filename: &str,
    data: &Json,
    filings: Result<&Json, SubmissionError>,
    front: Seq<char>,
    back: Seq<char>,
)
    requires
        call_ensures(filings_data, (filename, data), filings),
        filename@ == front + seq!['s', 'u', 'b', 'm', 'i', 's', 's', 'i', 'o', 'n', 's'] + back,
    ensures
        filings is Ok,
        (filings->Ok_0)@ == data@,
{
    document_laws::law_shards_are_taken_whole(front, back, data@);
}

/// Where `submissions` does not stand in a name, the filings are what is found under
/// `filings` and then under `recent`, and are missing where either is.
pub proof fn law_result_for_a_main_file(
    filename: &str,
    data: &Json,
    filings: Result<&Json, SubmissionError>,
    outer: Option<&Json>,
    inner: Option<&Json>,
)
    requires
        call_ensures(filings_data, (filename, data), filings),
        call_ensures(object_get, (data, "filings"), outer),
        outer is Some ==> call_ensures(object_get, (outer->0, "recent"), inner),
        outer is None ==> inner is None,
        forall|i: int|
            0 <= i <= filename@.len() ==> !"submissions"@.is_prefix_of(
                #[trigger] filename@.skip(i),
            ),
    ensures
        match inner {
            Some(recent) => filings is Ok && (filings->Ok_0)@ == recent@,
            None => filings is Err && filings->Err_0 is MissingRecentFilings,
        },
{
    crate::text_laws::law_nothing_stands_behind_what_is_missing(filename@, "submissions"@);
}

/// The cells of a field are those of the array that is found under its name.
pub proof fn law_result_for_a_field(
    filings: &Json,
    field: &str,
    cells: Result<&Vec<Cell>, SubmissionError>,
    value: Option<&Json>,
    array: Option<&Vec<Cell>>,
    i: int,
)
    requires
        call_ensures(field_array, (filings, field), cells),
        call_ensures(object_get, (filings, field), value),
        value is Some ==> call_ensures(as_array, (value->0,), array),
        value is None ==> array is None,
    ensures
        match array {
            Some(array) => {
                &&& cells is Ok
                &&& cells->Ok_0@.len() == array@.len()
                &&& 0 <= i < array@.len() ==> cells->Ok_0@[i]@ == array@[i]@
            },
            None => cells is Err && cells->Err_0@ == SubmissionErrorView::MissingArrayField(
                field@,
            ),
        },
{
    if let Some(array) = array {
        let viewed = crate::json::cells_view(array@);
        let found = crate::json::cells_view(cells->Ok_0@);
        assert(viewed == found);
        assert(found.len() == cells->Ok_0@.len());
        if 0 <= i < array@.len() {
            assert(viewed[i] == array@[i]@);
            assert(found[i] == cells->Ok_0@[i]@);
        }
    }
}

/// A cell is written as it stands in the document.
pub proof fn law_result_of_writing_a_cell(cell: Cell, written: &str, value: String)
    requires
        call_ensures(cell_str, (&cell,), written),
        call_ensures(csv_value, (&cell,), value),
    ensures
        value@ == written@,
        written@ == match cell {
            Cell::Null => Seq::empty(),
            Cell::Bool(true) => seq!['t', 'r', 'u', 'e'],
            Cell::Bool(false) => seq!['f', 'a', 'l', 's', 'e'],
            Cell::Number(number) => number.text@,
            Cell::Text(s) => s@,
            Cell::Nested(s) => s@,
        },
{
    document_laws::law_cells_are_written(cell);
}

/// An entry holds filings where its name begins with `CIK`, and belongs to the filer whose
/// number follows, up to the first `.` or `-`.
pub proof fn law_result_for_a_name(
    filename: &str,
    holds: bool,
    cik: Result<u64, SubmissionError>,
    other: Result<u64, SubmissionError>,
    written: Result<String, SubmissionError>,
    body: Seq<char>,
    suffix: Seq<char>,
)
    requires
        call_ensures(holds_filings, (filename,), holds),
        call_ensures(cik_number, (filename,), cik),
        call_ensures(construct_submissions_metadata::cik_from_filename, (filename,), other),
        call_ensures(construct_submissions_data::cik_from_filename, (filename,), written),
        !body.contains('.'),
        !body.contains('-'),
        suffix.len() == 0 || suffix[0] == '.' || suffix[0] == '-',
    ensures
        holds <==> filename@.len() >= 3 && filename@[0] == 'C' && filename@[1] == 'I'
            && filename@[2] == 'K',
        filename@ == seq!['C', 'I', 'K'] + body + suffix ==> match text::read_u64(body) {
            Some(n) => {
                &&& cik == Ok::<u64, SubmissionError>(n)
                &&& other == Ok::<u64, SubmissionError>(n)
                &&& written is Ok
                &&& written->Ok_0@ == text::decimal(n as nat)
            },
            None => {
                &&& cik is Err && cik->Err_0 is InvalidCik
                &&& other is Err && other->Err_0 is InvalidCik
                &&& written is Err && written->Err_0 is InvalidCik
            },
        },
        filename@ == body + suffix && !(body.len() >= 3 && body[0] == 'C' && body[1] == 'I'
            && body[2] == 'K') ==> {
            &&& cik is Err && cik->Err_0 is MissingCikPrefix
            &&& other is Err && other->Err_0 is MissingCikPrefix
            &&& written is Err && written->Err_0 is MissingCikPrefix
        },
{
    document_laws::lemma_begins_with_cik(filename@);
    document_laws::law_names_give_the_filer(body, suffix);
    if !(body.len() >= 3 && body[0] == 'C' && body[1] == 'I' && body[2] == 'K') {
        document_laws::law_other_names_are_refused(body, suffix);
    }
}

/// A document is read from bytes as `serde_json` reads it.
pub proof fn law_results_of_parsing(
    bytes: &[u8],
    document: Result<Json, serde_json::Error>,
    value: serde_json::Value,
    converted: Json,
)
    requires
        call_ensures(Json::parse, (bytes,), document),
        call_ensures(Json::from_value, (&value,), converted),
    ensures
        match document {
            Ok(document) => crate::json::parsed_json(bytes@) is Ok && crate::json::parsed_json(
                bytes@,
            )->Ok_0 == document@,
            Err(error) => crate::json::parsed_json(bytes@) is Err && crate::json::parsed_json(
                bytes@,
            )->Err_0 == crate::json::json_error_words(error),
        },
        converted@ == crate::json::json_of(value),
{
}

/// Bytes are opened as the archive that they are, and all its entries are in view.
pub proof fn law_result_of_opening_an_archive(
    bytes: Vec<u8>,
    opened: Result<SubmissionsArchive, zip::result::ZipError>,
)
    requires
        call_ensures(SubmissionsArchive::open, (bytes,), opened),
    ensures
        match opened {
            Ok(opened) => {
                &&& archive::zip_entries(bytes@) is Ok
                &&& archive::zip_entries(bytes@)->Ok_0 == archive::archive_entries(opened.zip)
                &&& opened@ == archive::archive_entries(opened.zip)
            },
            Err(error) => {
                &&& archive::zip_entries(bytes@) is Err
                &&& archive::zip_entries(bytes@)->Err_0 == archive::zip_error_words(error)
            },
        },
{
}

/// An archive is opened for what it holds, has as many entries, and gives each by its
/// number; what holds no filings is not read.
pub proof fn law_results_for_an_archive(
    opened: SubmissionsArchive,
    len: usize,
    index: usize,
    entry: ArchiveEntry,
)
    requires
        call_ensures(SubmissionsArchive::len, (&opened,), len),
    ensures
        len == opened@.len(),
        forall|archive: &mut SubmissionsArchive|
            #[trigger] call_ensures(SubmissionsArchive::entry, (archive, index), entry) ==> {
                &&& final(archive)@ == archive@
                &&& entry@ == submissions::as_read(archive@[index as int])
            },
{
}

/// The words for an error are those of its kind, with the name or the field that it is
/// about.
pub proof fn law_results_of_telling_errors(
    error: SubmissionError,
    filename: &str,
    message: String,
    fault: ColumnError,
    told: String,
    number: text::NumberError,
    words: String,
)
    requires
        call_ensures(SubmissionError::message, (&error, filename), message),
        call_ensures(ColumnError::message, (&fault,), told),
        call_ensures(text::NumberError::message, (&number,), words),
    ensures
        match error {
            SubmissionError::MissingCikPrefix => message@ == "filename does not start with CIK: "@
                + filename@,
            SubmissionError::InvalidCik(_) => message@ == "failed to parse CIK from "@ + filename@,
            SubmissionError::InvalidJson(_) => message@ == "failed to parse submissions JSON "@
                + filename@,
            SubmissionError::MissingRecentFilings => message@ == "missing filings.recent"@,
            SubmissionError::MissingArrayField(field) => message@ == "missing array field "@
                + field@,
            SubmissionError::MismatchedLengths => message@
                == "submissions fields have mismatched lengths"@,
        },
        match fault {
            ColumnError::NoColumns => told@
                == "at least one submissions metadata column is required"@,
            ColumnError::EmptyName => told@ == "submissions metadata column name cannot be empty"@,
            ColumnError::CikRequested => told@
                == "cik is always included and cannot be requested as a submissions metadata column"@,
            ColumnError::Duplicate(name) => told@ == "duplicate submissions metadata column "@
                + name@,
        },
        match number {
            text::NumberError::Empty => words@ == "cannot parse integer from empty string"@,
            text::NumberError::InvalidDigit => words@ == "invalid digit found in string"@,
            text::NumberError::TooLarge => words@ == "number too large to fit in target type"@,
        },
{
}

} // verus!
