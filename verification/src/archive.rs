//! The SEC submissions archive, a ZIP file that is held in memory.
use vstd::prelude::*;

use crate::submissions::{self, holds_filings, ArchiveEntry, EntryView};

verus! {

#[verifier::external_type_specification]
#[verifier::external_body]
#[verifier::reject_recursive_types(T)]
pub struct ExCursor<T>(std::io::Cursor<T>);

#[verifier::external_type_specification]
#[verifier::external_body]
#[verifier::reject_recursive_types(R)]
pub struct ExZipArchive<R>(zip::ZipArchive<R>);

#[verifier::external_type_specification]
#[verifier::external_body]
pub struct ExZipError(zip::result::ZipError);

/// What can be read of the entries of a ZIP file, in its order, or the words for the
/// error where the bytes are no ZIP file.
pub uninterp spec fn zip_entries(bytes: Seq<u8>) -> Result<Seq<EntryView>, Seq<Seq<char>>>;

/// What can be read of the entries of an open ZIP file.
pub uninterp spec fn archive_entries(zip: zip::ZipArchive<std::io::Cursor<Vec<u8>>>) -> Seq<
    EntryView,
>;

/// The words for an error of the `zip` crate, and behind them those for what caused it.
pub uninterp spec fn zip_error_words(error: zip::result::ZipError) -> Seq<Seq<char>>;

/// The words for an error of reading, and behind them those for what caused it.
pub uninterp spec fn io_error_words(error: std::io::Error) -> Seq<Seq<char>>;

/// Calls `zip::ZipArchive::new`. Trusted: whether it succeeds, which entries the archive
/// has, and what the error says, depend on the bytes alone.
#[verifier::external_body]
fn open_zip(bytes: Vec<u8>) -> (zip: Result<
    zip::ZipArchive<std::io::Cursor<Vec<u8>>>,
    zip::result::ZipError,
>)
    ensures
        match zip {
            Ok(zip) => zip_entries(bytes@) == Ok::<Seq<EntryView>, Seq<Seq<char>>>(
                archive_entries(zip),
            ),
            Err(error) => zip_entries(bytes@) == Err::<Seq<EntryView>, Seq<Seq<char>>>(
                zip_error_words(error),
            ),
        },
{
    zip::ZipArchive::new(std::io::Cursor::new(bytes))
}

/// Calls `zip::ZipArchive::len`. Trusted: it is the number of entries.
#[verifier::external_body]
fn zip_len(zip: &zip::ZipArchive<std::io::Cursor<Vec<u8>>>) -> (len: usize)
    ensures
        len == archive_entries(*zip).len(),
{
    zip.len()
}

/// Calls `zip::ZipArchive::by_index` for the name of the file that it gives. Trusted:
/// whether an entry can be opened, its name, and what the error says, depend on the
/// archive alone, and opening it leaves the archive as it is.
#[verifier::external_body]
fn read_zip_name(zip: &mut zip::ZipArchive<std::io::Cursor<Vec<u8>>>, index: usize) -> (name:
    Result<String, zip::result::ZipError>)
    requires
        index < archive_entries(*old(zip)).len(),
    ensures
        match name {
            Ok(name) => archive_entries(*old(zip))[index as int] is File && name@
                == archive_entries(*old(zip))[index as int]->name,
            Err(error) => archive_entries(*old(zip))[index as int] == EntryView::Unreadable(
                zip_error_words(error),
            ),
        },
        archive_entries(*final(zip)) == archive_entries(*old(zip)),
{
    zip.by_index(index).map(|file| file.name().to_string())
}

/// Calls `zip::ZipArchive::by_index` and reads the file that it gives to its end.
/// Trusted: what can be read of an entry that can be opened, and what the error says,
/// depend on the archive alone, and reading leaves the archive as it is.
#[verifier::external_body]
fn read_zip_contents(
    zip: &mut zip::ZipArchive<std::io::Cursor<Vec<u8>>>,
    index: usize,
) -> (contents: Result<Vec<u8>, std::io::Error>)
    requires
        index < archive_entries(*old(zip)).len(),
        archive_entries(*old(zip))[index as int] is File,
    ensures
        match contents {
            Ok(bytes) => archive_entries(*old(zip))[index as int]->contents == Ok::<
                Seq<u8>,
                Seq<Seq<char>>,
            >(bytes@),
            Err(error) => archive_entries(*old(zip))[index as int]->contents == Err::<
                Seq<u8>,
                Seq<Seq<char>>,
            >(io_error_words(error)),
        },
        archive_entries(*final(zip)) == archive_entries(*old(zip)),
{
    let mut bytes = Vec::new();
    std::io::Read::read_to_end(&mut zip.by_index(index)?, &mut bytes)?;
    Ok(bytes)
}

/// An archive of submissions.
pub struct SubmissionsArchive {
    pub zip: zip::ZipArchive<std::io::Cursor<Vec<u8>>>,
}

impl View for SubmissionsArchive {
    type V = Seq<EntryView>;

    open spec fn view(&self) -> Seq<EntryView> {
        archive_entries(self.zip)
    }
}

impl SubmissionsArchive {
    /// Opens an archive, or says what is wrong where the bytes are none.
    pub fn open(bytes: Vec<u8>) -> (archive: Result<Self, zip::result::ZipError>)
        ensures
            match archive {
                Ok(archive) => zip_entries(bytes@) == Ok::<Seq<EntryView>, Seq<Seq<char>>>(
                    archive@,
                ),
                Err(error) => zip_entries(bytes@) == Err::<Seq<EntryView>, Seq<Seq<char>>>(
                    zip_error_words(error),
                ),
            },
    {
        match open_zip(bytes) {
            Ok(zip) => Ok(SubmissionsArchive { zip }),
            Err(error) => Err(error),
        }
    }

    /// How many entries there are.
    pub fn len(&self) -> (len: usize)
        ensures
            len == self@.len(),
    {
        zip_len(&self.zip)
    }

    /// What can be read of an entry. Only what holds filings is read.
    pub fn entry(&mut self, index: usize) -> (entry: ArchiveEntry)
        requires
            index < old(self)@.len(),
        ensures
            entry@ == submissions::as_read(old(self)@[index as int]),
            final(self)@ == old(self)@,
    {
        let name = match read_zip_name(&mut self.zip, index) {
            Ok(name) => name,
            Err(error) => return ArchiveEntry::Unreadable(error),
        };
        if !holds_filings(name.as_str()) {
            let contents: Vec<u8> = Vec::new();
            assert(contents@ =~= Seq::empty());
            return ArchiveEntry::File { name, contents: Ok(contents) };
        }
        let contents = read_zip_contents(&mut self.zip, index);
        ArchiveEntry::File { name, contents }
    }
}

} // verus!
