//! What holds of looking things up in JSON documents and of the names of archive entries.
use vstd::prelude::*;

use crate::archive;
use crate::json::{self, Cell, CellView, Json, JsonNumber, JsonView};
use crate::submissions::{
    self, ArchiveEntry, ContentsError, EntryView, SubmissionError, SubmissionErrorView,
};
use crate::text::{self, NumberError};

verus! {

/// A key finds the value of the first entry that has it, whatever stands around.
pub proof fn law_first_entry_is_found(
    front: Seq<(Seq<char>, JsonView)>,
    key: Seq<char>,
    value: JsonView,
    back: Seq<(Seq<char>, JsonView)>,
)
    requires
        forall|i: int| 0 <= i < front.len() ==> (#[trigger] front[i]).0 != key,
    ensures
        json::lookup(front + seq![(key, value)] + back, key) == Some(value),
        JsonView::Object(front + seq![(key, value)] + back).get(key) == Some(value),
    decreases front.len(),
{
    let entries = front + seq![(key, value)] + back;
    if front.len() > 0 {
        assert(front[0].0 != key);
        assert(entries[0] == front[0]);
        let rest = front.skip(1);
        assert forall|i: int| 0 <= i < rest.len() implies (#[trigger] rest[i]).0 != key by {
            assert(front[i + 1].0 != key);
        }
        law_first_entry_is_found(rest, key, value, back);
        assert(entries.skip(1) =~= rest + seq![(key, value)] + back);
    }
}

/// A key that no entry has finds nothing, nor does any key in what is no object.
pub proof fn law_missing_keys_find_nothing(
    entries: Seq<(Seq<char>, JsonView)>,
    key: Seq<char>,
    cells: Seq<CellView>,
)
    requires
        forall|i: int| 0 <= i < entries.len() ==> (#[trigger] entries[i]).0 != key,
    ensures
        json::lookup(entries, key) is None,
        JsonView::Object(entries).get(key) is None,
        JsonView::Array(cells).get(key) is None,
        JsonView::Scalar.get(key) is None,
    decreases entries.len(),
{
    if entries.len() > 0 {
        assert(entries[0].0 != key);
        let rest = entries.skip(1);
        assert forall|i: int| 0 <= i < rest.len() implies (#[trigger] rest[i]).0 != key by {
            assert(entries[i + 1].0 != key);
        }
        law_missing_keys_find_nothing(rest, key, cells);
    }
}

/// What a key finds is the value of an entry with that key.
pub proof fn law_what_is_found_is_an_entry(
    entries: Seq<(Seq<char>, JsonView)>,
    key: Seq<char>,
) -> (i: int)
    requires
        json::lookup(entries, key) is Some,
    ensures
        0 <= i < entries.len(),
        entries[i] == (key, json::lookup(entries, key)->0),
        forall|j: int| 0 <= j < i ==> (#[trigger] entries[j]).0 != key,
    decreases entries.len(),
{
    if entries[0].0 == key {
        0
    } else {
        let k = law_what_is_found_is_an_entry(entries.skip(1), key);
        assert forall|j: int| 0 <= j < k + 1 implies (#[trigger] entries[j]).0 != key by {
            if j > 0 {
                assert(entries.skip(1)[j - 1].0 != key);
            }
        }
        k + 1
    }
}

/// Only an array has cells, and it has all that it was made of.
pub proof fn law_only_arrays_have_cells(
    cells: Seq<CellView>,
    entries: Seq<(Seq<char>, JsonView)>,
)
    ensures
        JsonView::Array(cells).cells() == Some(cells),
        JsonView::Object(entries).cells() is None,
        JsonView::Scalar.cells() is None,
{
}

/// The view of a cell holds all that the cell does.
pub proof fn law_cells_are_viewed_whole(cell: Cell)
    ensures
        match cell {
            Cell::Null => cell@ == CellView::Null,
            Cell::Bool(b) => cell@ == CellView::Bool(b),
            Cell::Number(n) => {
                &&& cell@ is Number
                &&& cell@->Number_0.unsigned == n.unsigned
                &&& cell@->Number_0.signed == n.signed
                &&& cell@->Number_0.float_bits == n.float_bits
                &&& cell@->Number_0.text == n.text@
            },
            Cell::Text(s) => cell@ == CellView::Text(s@),
            Cell::Nested(s) => cell@ == CellView::Nested(s@),
        },
{
}

/// The view of a number holds all that the number does.
pub proof fn law_numbers_are_viewed_whole(number: JsonNumber)
    ensures
        number@.unsigned == number.unsigned,
        number@.signed == number.signed,
        number@.float_bits == number.float_bits,
        number@.text == number.text@,
{
}

/// The view of a row of cells has one for each, in their order.
pub proof fn law_rows_are_viewed_whole(cells: Seq<Cell>, i: int)
    ensures
        json::cells_view(cells).len() == cells.len(),
        0 <= i < cells.len() ==> json::cells_view(cells)[i] == cells[i]@,
{
}

/// The view of a document has all its entries or all its cells, in their order.
pub proof fn law_documents_are_viewed_whole(document: Json, i: int)
    ensures
        match document {
            Json::Object(entries) => {
                &&& document@ is Object
                &&& document@->Object_0.len() == entries@.len()
                &&& 0 <= i < entries@.len() ==> document@->Object_0[i].0 == entries@[i].0@
                    && document@->Object_0[i].1 == entries@[i].1@
            },
            Json::Array(cells) => {
                &&& document@ is Array
                &&& document@->Array_0.len() == cells@.len()
                &&& 0 <= i < cells@.len() ==> document@->Array_0[i] == cells@[i]@
            },
            Json::Scalar => document@ == JsonView::Scalar,
        },
{
    reveal_with_fuel(<Json as View>::view, 2);
}

/// A shard is all filings: wherever `submissions` stands in a name, the whole document
/// is taken.
pub proof fn law_shards_are_taken_whole(front: Seq<char>, back: Seq<char>, data: JsonView)
    ensures
        submissions::filings_of(front + "submissions"@ + back, data) == Some(data),
        submissions::filings_of(
            front + seq!['s', 'u', 'b', 'm', 'i', 's', 's', 'i', 'o', 'n', 's'] + back,
            data,
        ) == Some(data),
{
    let word = seq!['s', 'u', 'b', 'm', 'i', 's', 's', 'i', 'o', 'n', 's'];
    reveal_strlit("submissions");
    assert("submissions"@ =~= word);
    crate::text_laws::law_a_part_is_found(front, "submissions"@, back);
}

/// Where `submissions` does not stand in a name, the filings are what stands under
/// `filings.recent`.
pub proof fn law_recent_filings_are_taken(
    filename: Seq<char>,
    front: Seq<(Seq<char>, JsonView)>,
    back: Seq<(Seq<char>, JsonView)>,
    inner_front: Seq<(Seq<char>, JsonView)>,
    recent: JsonView,
    inner_back: Seq<(Seq<char>, JsonView)>,
)
    requires
        forall|i: int|
            0 <= i <= filename.len() ==> !"submissions"@.is_prefix_of(#[trigger] filename.skip(i)),
        forall|i: int| 0 <= i < front.len() ==> (#[trigger] front[i]).0 != "filings"@,
        forall|i: int| 0 <= i < inner_front.len() ==> (#[trigger] inner_front[i]).0 != "recent"@,
    ensures
        ({
            let filings = JsonView::Object(inner_front + seq![("recent"@, recent)] + inner_back);
            let data = JsonView::Object(front + seq![("filings"@, filings)] + back);
            submissions::filings_of(filename, data) == Some(recent)
        }),
{
    let filings = JsonView::Object(inner_front + seq![("recent"@, recent)] + inner_back);
    crate::text_laws::law_nothing_stands_behind_what_is_missing(filename, "submissions"@);
    law_first_entry_is_found(front, "filings"@, filings, back);
    law_first_entry_is_found(inner_front, "recent"@, recent, inner_back);
}

/// Where `submissions` does not stand in a name, there are no filings in a document that
/// is no object, or that has no `filings`, or whose first `filings` is no object or has
/// no `recent`.
pub proof fn law_recent_filings_can_be_missing(
    filename: Seq<char>,
    data: JsonView,
    front: Seq<(Seq<char>, JsonView)>,
    back: Seq<(Seq<char>, JsonView)>,
    filings: JsonView,
)
    requires
        forall|i: int|
            0 <= i <= filename.len() ==> !"submissions"@.is_prefix_of(#[trigger] filename.skip(i)),
        forall|i: int| 0 <= i < front.len() ==> (#[trigger] front[i]).0 != "filings"@,
        filings matches JsonView::Object(entries) ==> forall|i: int|
            0 <= i < entries.len() ==> (#[trigger] entries[i]).0 != "recent"@,
    ensures
        submissions::filings_of(filename, JsonView::Object(front)) is None,
        submissions::filings_of(
            filename,
            JsonView::Object(front + seq![("filings"@, filings)] + back),
        ) is None,
        !(data is Object) ==> submissions::filings_of(filename, data) is None,
{
    crate::text_laws::law_nothing_stands_behind_what_is_missing(filename, "submissions"@);
    law_missing_keys_find_nothing(front, "filings"@, Seq::empty());
    law_first_entry_is_found(front, "filings"@, filings, back);
    if let JsonView::Object(entries) = filings {
        law_missing_keys_find_nothing(entries, "recent"@, Seq::empty());
    }
}

/// The cells of a field are all those of the array that stands first under its name.
pub proof fn law_fields_are_taken_whole(
    front: Seq<(Seq<char>, JsonView)>,
    field: Seq<char>,
    cells: Seq<CellView>,
    back: Seq<(Seq<char>, JsonView)>,
    other: JsonView,
)
    requires
        forall|i: int| 0 <= i < front.len() ==> (#[trigger] front[i]).0 != field,
    ensures
        submissions::field_cells(
            JsonView::Object(front + seq![(field, JsonView::Array(cells))] + back),
            field,
        ) == Some(cells),
        submissions::field_cells(JsonView::Object(front), field) is None,
        !(other is Array) ==> submissions::field_cells(
            JsonView::Object(front + seq![(field, other)] + back),
            field,
        ) is None,
        !(other is Object) ==> submissions::field_cells(other, field) is None,
{
    law_first_entry_is_found(front, field, JsonView::Array(cells), back);
    law_first_entry_is_found(front, field, other, back);
    law_missing_keys_find_nothing(front, field, cells);
}

/// A cell is written as it stands in the document: a text without its quotes, a number
/// and what is nested as they are printed, and null as nothing.
pub proof fn law_cells_are_written(cell: Cell)
    ensures
        submissions::cell_text(cell@) == match cell {
            Cell::Null => Seq::empty(),
            Cell::Bool(true) => seq!['t', 'r', 'u', 'e'],
            Cell::Bool(false) => seq!['f', 'a', 'l', 's', 'e'],
            Cell::Number(number) => number.text@,
            Cell::Text(s) => s@,
            Cell::Nested(s) => s@,
        },
{
    reveal_strlit("true");
    reveal_strlit("false");
    assert("true"@ =~= seq!['t', 'r', 'u', 'e']);
    assert("false"@ =~= seq!['f', 'a', 'l', 's', 'e']);
}

/// Wherever a name begins with `CIK`, what follows up to the first `.` or `-` is read as
/// the number of the filer; what is no number is refused with what is wrong with it.
pub proof fn law_names_give_the_filer(body: Seq<char>, suffix: Seq<char>)
    requires
        !body.contains('.'),
        !body.contains('-'),
        suffix.len() == 0 || suffix[0] == '.' || suffix[0] == '-',
    ensures
        submissions::stem(seq!['C', 'I', 'K'] + body + suffix) == seq!['C', 'I', 'K'] + body,
        match text::read_u64(body) {
            Some(cik) => submissions::cik_of(seq!['C', 'I', 'K'] + body + suffix) == Ok::<
                u64,
                SubmissionErrorView,
            >(cik),
            None => {
                &&& text::number_fault(body) is Some
                &&& submissions::cik_of(seq!['C', 'I', 'K'] + body + suffix) == Err::<
                    u64,
                    SubmissionErrorView,
                >(SubmissionErrorView::InvalidCik(text::number_fault(body)->0))
            },
        },
{
    reveal_strlit("CIK");
    let prefix = seq!['C', 'I', 'K'];
    assert("CIK"@ =~= prefix);
    let name = prefix + body;
    let full = name + suffix;
    assert forall|i: int| 0 <= i < name.len() implies name[i] != '.' && name[i] != '-' by {
        if i >= 3 {
            assert(name[i] == body[i - 3]);
            assert(body.contains(body[i - 3]));
        }
    }
    if suffix.len() == 0 || suffix[0] == '.' {
        text::lemma_before_first_of_concat(name, suffix, '.');
        text::lemma_before_first_of_concat(name, Seq::empty(), '-');
        assert(name + Seq::empty() =~= name);
    } else {
        let rest = text::before_first(suffix, '.');
        text::lemma_before_first_extends(name, suffix, '.');
        assert(rest[0] == '-');
        text::lemma_before_first_of_concat(name, rest, '-');
    }
    assert("CIK"@ =~= name.subrange(0, 3));
    assert(name.skip(3) =~= body);
    text::law_a_number_or_a_fault(body);
}

/// A name that does not begin with `CIK` names no filer, nor does one in which a `.` or a
/// `-` stands among these letters.
pub proof fn law_other_names_are_refused(name: Seq<char>, suffix: Seq<char>)
    requires
        !name.contains('.'),
        !name.contains('-'),
        !(name.len() >= 3 && name[0] == 'C' && name[1] == 'I' && name[2] == 'K'),
        suffix.len() == 0 || suffix[0] == '.' || suffix[0] == '-',
    ensures
        submissions::cik_of(name + suffix) == Err::<u64, SubmissionErrorView>(
            SubmissionErrorView::MissingCikPrefix,
        ),
{
    reveal_strlit("CIK");
    assert forall|i: int| 0 <= i < name.len() implies name[i] != '.' && name[i] != '-' by {
        assert(name.contains(name[i]));
    }
    if suffix.len() == 0 || suffix[0] == '.' {
        text::lemma_before_first_of_concat(name, suffix, '.');
        text::lemma_before_first_of_concat(name, Seq::empty(), '-');
        assert(name + Seq::empty() =~= name);
    } else {
        let rest = text::before_first(suffix, '.');
        text::lemma_before_first_extends(name, suffix, '.');
        assert(rest[0] == '-');
        text::lemma_before_first_of_concat(name, rest, '-');
    }
    assert(submissions::stem(name + suffix) == name);
    if "CIK"@.is_prefix_of(name) {
        assert("CIK"@ =~= name.subrange(0, 3));
        assert(name[0] == "CIK"@[0] && name[1] == "CIK"@[1] && name[2] == "CIK"@[2]);
    }
}

/// The words for an error name the entry or the field that it is about.
pub proof fn law_error_messages(
    filename: Seq<char>,
    field: Seq<char>,
    fault: NumberError,
    words: Seq<Seq<char>>,
)
    ensures
        submissions::error_message(SubmissionErrorView::MissingCikPrefix, filename)
            == "filename does not start with CIK: "@ + filename,
        submissions::error_message(SubmissionErrorView::InvalidCik(fault), filename)
            == "failed to parse CIK from "@ + filename,
        submissions::error_message(SubmissionErrorView::InvalidJson(words), filename)
            == "failed to parse submissions JSON "@ + filename,
        submissions::error_message(SubmissionErrorView::MissingRecentFilings, filename)
            == "missing filings.recent"@,
        submissions::error_message(SubmissionErrorView::MissingArrayField(field), filename)
            == "missing array field "@ + field,
        submissions::error_message(SubmissionErrorView::MismatchedLengths, filename)
            == "submissions fields have mismatched lengths"@,
        text::number_message(NumberError::Empty) == "cannot parse integer from empty string"@,
        text::number_message(NumberError::InvalidDigit) == "invalid digit found in string"@,
        text::number_message(NumberError::TooLarge) == "number too large to fit in target type"@,
{
}

/// The view of an error holds what the error does.
pub proof fn law_errors_are_viewed_whole(error: SubmissionError, cause: ContentsError)
    ensures
        match error {
            SubmissionError::MissingCikPrefix => error@ == SubmissionErrorView::MissingCikPrefix,
            SubmissionError::InvalidCik(fault) => error@ == SubmissionErrorView::InvalidCik(
                fault,
            ),
            SubmissionError::InvalidJson(cause) => error@ == SubmissionErrorView::InvalidJson(
                cause@,
            ),
            SubmissionError::MissingRecentFilings => error@
                == SubmissionErrorView::MissingRecentFilings,
            SubmissionError::MissingArrayField(field) => error@
                == SubmissionErrorView::MissingArrayField(field@),
            SubmissionError::MismatchedLengths => error@ == SubmissionErrorView::MismatchedLengths,
        },
        match cause {
            ContentsError::Json(error) => cause@ == json::json_error_words(error),
            ContentsError::Read(error) => cause@ == archive::io_error_words(error),
        },
{
}

/// The view of an archive's entries has one for each, in their order, with its name and
/// its contents.
pub proof fn law_entries_are_viewed_whole(entries: Seq<ArchiveEntry>, i: int)
    ensures
        submissions::entries_view(entries).len() == entries.len(),
        0 <= i < entries.len() ==> match entries[i] {
            ArchiveEntry::Unreadable(error) => submissions::entries_view(entries)[i]
                == EntryView::Unreadable(archive::zip_error_words(error)),
            ArchiveEntry::File { name, contents: Ok(bytes) } => submissions::entries_view(
                entries,
            )[i] == (EntryView::File { name: name@, contents: Ok(bytes@) }),
            ArchiveEntry::File { name, contents: Err(error) } => submissions::entries_view(
                entries,
            )[i] == (EntryView::File {
                name: name@,
                contents: Err(archive::io_error_words(error)),
            }),
        },
{
}

/// An entry whose name begins with `CIK` is read whole, and so is what could not be
/// opened; of any other only the name is kept.
pub proof fn law_entries_are_read(
    name: Seq<char>,
    contents: Result<Seq<u8>, Seq<Seq<char>>>,
    words: Seq<Seq<char>>,
)
    ensures
        submissions::as_read(EntryView::Unreadable(words)) == EntryView::Unreadable(words),
        name.len() >= 3 && name[0] == 'C' && name[1] == 'I' && name[2] == 'K'
            ==> submissions::as_read((EntryView::File { name, contents })) == (EntryView::File {
            name,
            contents,
        }),
        !(name.len() >= 3 && name[0] == 'C' && name[1] == 'I' && name[2] == 'K')
            ==> submissions::as_read((EntryView::File { name, contents })) == (EntryView::File {
            name,
            contents: Ok(Seq::empty()),
        }),
{
    lemma_begins_with_cik(name);
}

pub proof fn lemma_begins_with_cik(name: Seq<char>)
    ensures
        "CIK"@.is_prefix_of(name) <==> name.len() >= 3 && name[0] == 'C' && name[1] == 'I'
            && name[2] == 'K',
{
    reveal_strlit("CIK");
    if name.len() >= 3 {
        let start = name.subrange(0, 3);
        assert(start[0] == name[0] && start[1] == name[1] && start[2] == name[2]);
        if name[0] == 'C' && name[1] == 'I' && name[2] == 'K' {
            assert("CIK"@ =~= start);
        }
    }
}

} // verus!
