//! ZIP archives held in memory, read entry by entry.

use std::io::Cursor;
use std::io::Read;
use std::sync::Arc;
use vstd::prelude::*;
use vstd::utf8::decode_utf8;
use vstd::utf8::valid_utf8;
use crate::error::Error;

verus! {

/// `zip::ZipArchive`.
#[verifier::external_type_specification]
#[verifier::external_body]
#[verifier::reject_recursive_types(R)]
pub struct ExZipArchive<R>(::zip::ZipArchive<R>);

/// `std::io::Cursor`.
#[verifier::external_type_specification]
#[verifier::external_body]
#[verifier::reject_recursive_types(T)]
pub struct ExCursor<T>(Cursor<T>);

/// Why bytes could not be had from an archive.
#[derive(Clone, Copy, Debug, PartialEq, Eq)]
pub enum Fault {
    /// Reading failed, or what was read does not match its checksum.
    Io,
    /// The archive or the entry is not of a form that the reader accepts.
    Format,
}

/// The names of the entries of the ZIP archive that `data` holds, or why
/// `data` is not one. This is what `zip::ZipArchive::new` finds in the
/// central directory; its rules are not written down here.
pub uninterp spec fn zip_directory(data: Seq<u8>) -> Result<Set<Seq<char>>, Fault>;

/// The bytes of the entry `name` of the archive `data`, or why they cannot
/// be had. This is what `zip::ZipArchive::by_name` and reading the entry
/// to its end give for a name that the directory lists.
pub uninterp spec fn zip_entry(data: Seq<u8>, name: Seq<char>) -> Result<Seq<u8>, Fault>;

/// The bytes that an opened archive reads from.
pub uninterp spec fn archive_data(zip: ::zip::ZipArchive<Cursor<Arc<[u8]>>>) -> Seq<u8>;

/// How the ZIP reader failed, and what it said.
enum ZipFailure {
    /// No entry has the name.
    NotFound,
    /// An error of reading.
    Io(String),
    /// Any other error.
    Invalid(String),
}

/// A ZIP file in memory. Clones share the bytes.
pub struct MemoryZip(pub Arc<[u8]>);

/// Calls `Arc::clone`: one more handle on the same bytes.
#[verifier::external_body]
fn share(data: &Arc<[u8]>) -> (res: Arc<[u8]>)
    ensures
        res@ == data@,
{
    Arc::clone(data)
}

impl Clone for MemoryZip {
    fn clone(&self) -> (res: MemoryZip)
        ensures
            res@ == self@,
    {
        MemoryZip(share(&self.0))
    }
}

impl View for MemoryZip {
    type V = Seq<u8>;

    open spec fn view(&self) -> Seq<u8> {
        self.0@
    }
}

/// Calls `zip::ZipArchive::new` on a cursor over `data`. The archive opens
/// exactly when `data` has a directory, and it then reads from `data`;
/// else the failure is of the kind that the directory names.
#[verifier::external_body]
fn open_archive(data: &Arc<[u8]>) -> (res: Result<::zip::ZipArchive<Cursor<Arc<[u8]>>>, ZipFailure>)
    ensures
        match zip_directory(data@) {
            Ok(_) => res matches Ok(zip) && archive_data(zip) == data@,
            Err(Fault::Io) => res matches Err(ZipFailure::Io(_)),
            Err(Fault::Format) => res matches Err(ZipFailure::Invalid(_)),
        },
{
    match ::zip::ZipArchive::new(Cursor::new(Arc::clone(data))) {
        Ok(zip) => Ok(zip),
        Err(::zip::result::ZipError::Io(e)) => Err(ZipFailure::Io(e.to_string())),
        Err(e) => Err(ZipFailure::Invalid(e.to_string())),
    }
}

/// Calls `zip::ZipArchive::by_name` and reads the entry that it gives to
/// its end. The lookup fails with `NotFound` exactly when the directory
/// lacks the name; for a name that it lists, the bytes are those of the
/// entry, or the failure is of the kind that the entry names. The archive
/// goes on reading from the same bytes.
#[verifier::external_body]
fn read_entry(zip: &mut ::zip::ZipArchive<Cursor<Arc<[u8]>>>, name: &str) -> (res: Result<
    Vec<u8>,
    ZipFailure,
>)
    requires
        zip_directory(archive_data(*old(zip))) is Ok,
    ensures
        archive_data(*final(zip)) == archive_data(*old(zip)),
        if !zip_directory(archive_data(*old(zip)))->Ok_0.contains(name@) {
            res matches Err(ZipFailure::NotFound)
        } else {
            match zip_entry(archive_data(*old(zip)), name@) {
                Ok(bytes) => res matches Ok(b) && b@ == bytes,
                Err(Fault::Io) => res matches Err(ZipFailure::Io(_)),
                Err(Fault::Format) => res matches Err(ZipFailure::Invalid(_)),
            }
        },
    no_unwind
{
    let mut buffer = Vec::new();
    match zip.by_name(name) {
        Ok(mut file) => match file.read_to_end(&mut buffer) {
            Ok(_) => Ok(buffer),
            Err(e) => Err(ZipFailure::Io(e.to_string())),
        },
        Err(::zip::result::ZipError::FileNotFound) => Err(ZipFailure::NotFound),
        Err(::zip::result::ZipError::Io(e)) => Err(ZipFailure::Io(e.to_string())),
        Err(e) => Err(ZipFailure::Invalid(e.to_string())),
    }
}

/// Calls `String::from_utf8`: the text that `bytes` encode, if they are
/// UTF-8.
#[verifier::external_body]
fn utf8_text(bytes: Vec<u8>) -> (res: Option<String>)
    ensures
        res is Some <==> valid_utf8(bytes@),
        res matches Some(text) ==> text@ == decode_utf8(bytes@),
{
    String::from_utf8(bytes).ok()
}

/// What reading the entry `name` of the archive `data` gives, by kind.
pub enum Entry {
    /// The directory lacks the name.
    Missing,
    /// The entry is listed, but its bytes cannot be had.
    Damaged(Fault),
    /// The bytes of the entry.
    Bytes(Seq<u8>),
}

/// The entry `name` of the archive `data`.
pub open spec fn spec_entry(data: Seq<u8>, name: Seq<char>) -> Entry {
    if !(zip_directory(data) matches Ok(names) && names.contains(name)) {
        Entry::Missing
    } else {
        match zip_entry(data, name) {
            Ok(bytes) => Entry::Bytes(bytes),
            Err(fault) => Entry::Damaged(fault),
        }
    }
}

/// The text of the entry `name` of the archive `data`, if the entry can be
/// read and is UTF-8.
pub open spec fn spec_text(data: Seq<u8>, name: Seq<char>) -> Option<Seq<char>> {
    match spec_entry(data, name) {
        Entry::Bytes(bytes) => if valid_utf8(bytes) {
            Some(decode_utf8(bytes))
        } else {
            None
        },
        _ => None,
    }
}

/// Whether `e` is the error that reading the entry `name` as text ends in
/// when the entry is `entry`: `NotFound` for a missing entry, `Io` or
/// `Format` for a damaged one, `Encoding` for bytes that are not UTF-8,
/// each with the path.
pub open spec fn entry_error(e: Error, entry: Entry, name: Seq<char>) -> bool {
    match entry {
        Entry::Missing => e matches Error::NotFound(path) && path@ == name,
        Entry::Damaged(Fault::Io) => e matches Error::Io(path) && path@ == name,
        Entry::Damaged(Fault::Format) => e matches Error::Format(path) && path@ == name,
        Entry::Bytes(bytes) => !valid_utf8(bytes) && (e matches Error::Encoding(path) && path@
            == name),
    }
}

/// Whether `res` is what reading the entry `name` of the archive `data`
/// gives: the bytes of the entry, or the error that says why there are
/// none.
pub open spec fn read_outcome(data: Seq<u8>, name: Seq<char>, res: Result<Vec<u8>, Error>) -> bool {
    match spec_entry(data, name) {
        Entry::Bytes(bytes) => res matches Ok(b) && b@ == bytes,
        entry => res matches Err(e) && entry_error(e, entry, name),
    }
}

/// Whether two errors are of one kind and carry the same path.
pub open spec fn same_error(a: Error, b: Error) -> bool {
    match (a, b) {
        (Error::Io(p), Error::Io(q)) => p@ == q@,
        (Error::Format(p), Error::Format(q)) => p@ == q@,
        (Error::NotFound(p), Error::NotFound(q)) => p@ == q@,
        (Error::Encoding(p), Error::Encoding(q)) => p@ == q@,
        (Error::Schema(p), Error::Schema(q)) => p@ == q@,
        _ => false,
    }
}

/// Two reads of one path agree, whatever was read in between and whether
/// they were made through one archive or through clones: both give the
/// same bytes, or both fail with the same error.
pub proof fn law_reads_agree(
    data: Seq<u8>,
    name: Seq<char>,
    first: Result<Vec<u8>, Error>,
    second: Result<Vec<u8>, Error>,
)
    requires
        read_outcome(data, name, first),
        read_outcome(data, name, second),
    ensures
        match (first, second) {
            (Ok(a), Ok(b)) => a@ == b@,
            (Err(a), Err(b)) => same_error(a, b),
            _ => false,
        },
{
}

/// Whether `e` says that the entry `name` does not have the expected
/// structure.
pub open spec fn is_schema_error(e: Error, name: Seq<char>) -> bool {
    e matches Error::Schema(path) && path@ == name
}

/// Whether `decode` may give `value` for the text `text`.
pub open spec fn decodes<T, F: Fn(&str) -> Option<T>>(
    decode: F,
    text: Seq<char>,
    value: Option<T>,
) -> bool {
    exists|t: &str| t@ == text && #[trigger] decode.ensures((t,), value)
}

/// An opened ZIP archive. Its directory is read once, when it is opened;
/// after that the archive only hands out entries. Paths are taken as they
/// stand in the directory; of two entries with one path, the later one is
/// read.
pub struct Archive {
    format: MemoryZip,
    zip: ::zip::ZipArchive<Cursor<Arc<[u8]>>>,
}

impl Archive {
    #[verifier::type_invariant]
    spec fn opened(&self) -> bool {
        archive_data(self.zip) == self.format@ && zip_directory(self.format@) is Ok
    }

    /// The bytes of the archive.
    pub closed spec fn data(&self) -> Seq<u8> {
        self.format@
    }

    /// Opens the archive that `format` holds.
    ///
    /// It opens exactly when the bytes have a ZIP directory; else the
    /// error is `Io` or `Format`, as the fault is, with what the reader
    /// said.
    pub fn load(format: MemoryZip) -> (res: Result<Archive, Error>)
        ensures
            match zip_directory(format@) {
                Ok(_) => res matches Ok(archive) && archive.data() == format@,
                Err(Fault::Io) => res matches Err(Error::Io(_)),
                Err(Fault::Format) => res matches Err(Error::Format(_)),
            },
    {
        match open_archive(&format.0) {
            Ok(zip) => Ok(Archive { format, zip }),
            Err(ZipFailure::Io(message)) => Err(Error::Io(message)),
            Err(ZipFailure::Invalid(message)) => Err(Error::Format(message)),
            Err(ZipFailure::NotFound) => unreached(),
        }
    }

    /// Reads the entry `file` into a fresh buffer.
    ///
    /// What comes back depends on the bytes of the archive and on `file`
    /// alone, not on what was read before: the bytes of the entry, or
    /// `NotFound` with the path where the directory lacks it, or `Io` or
    /// `Format` with the path where the entry cannot be read. An archive
    /// that was opened has a directory.
    pub fn read_file(&mut self, file: &str) -> (res: Result<Vec<u8>, Error>)
        ensures
            final(self).data() == old(self).data(),
            zip_directory(old(self).data()) is Ok,
            read_outcome(old(self).data(), file@, res),
    {
        proof {
            use_type_invariant(&*self);
        }
        match read_entry(&mut self.zip, file) {
            Ok(bytes) => Ok(bytes),
            Err(ZipFailure::NotFound) => Err(Error::NotFound(file.to_owned())),
            Err(ZipFailure::Io(_)) => Err(Error::Io(file.to_owned())),
            Err(ZipFailure::Invalid(_)) => Err(Error::Format(file.to_owned())),
        }
    }

    /// Reads the entry `file` as text.
    pub fn read_text(&mut self, file: &str) -> (res: Result<String, Error>)
        ensures
            final(self).data() == old(self).data(),
            match spec_text(old(self).data(), file@) {
                Some(text) => res matches Ok(t) && t@ == text,
                None => res matches Err(e) && entry_error(
                    e,
                    spec_entry(old(self).data(), file@),
                    file@,
                ),
            },
    {
        let bytes = self.read_file(file)?;
        match utf8_text(bytes) {
            Some(text) => Ok(text),
            None => Err(Error::Encoding(file.to_owned())),
        }
    }

    /// Reads the entry `file` as text and decodes it with `decode`, which
    /// gives `None` for a text that does not have the expected structure.
    /// Gives the decoded value and the text.
    pub fn read_xml<T, F: Fn(&str) -> Option<T>>(&mut self, file: &str, decode: &F) -> (res:
        Result<(T, String), Error>)
        requires
            forall|text: &str| decode.requires((text,)),
        ensures
            final(self).data() == old(self).data(),
            match spec_text(old(self).data(), file@) {
                Some(text) => match res {
                    Ok((value, t)) => t@ == text && decodes(*decode, text, Some(value)),
                    Err(e) => is_schema_error(e, file@) && decodes(*decode, text, None::<T>),
                },
                None => res matches Err(e) && entry_error(
                    e,
                    spec_entry(old(self).data(), file@),
                    file@,
                ),
            },
    {
        let text = match self.read_text(file) {
            Ok(text) => text,
            Err(e) => { return Err(e); },
        };
        let slice = text.as_str();
        let value = decode(slice);
        assert(decodes(*decode, text@, value)) by {
            assert(slice@ == text@ && decode.ensures((slice,), value));
        }
        Archive::decoded(file, text, value)
    }

    /// Reads the entry `file` as text and decodes it with `decode`, as
    /// [`Archive::read_xml`] does, and gives the decoded value alone.
    pub fn read_json<T, F: Fn(&str) -> Option<T>>(&mut self, file: &str, decode: &F) -> (res:
        Result<T, Error>)
        requires
            forall|text: &str| decode.requires((text,)),
        ensures
            final(self).data() == old(self).data(),
            match spec_text(old(self).data(), file@) {
                Some(text) => match res {
                    Ok(value) => decodes(*decode, text, Some(value)),
                    Err(e) => is_schema_error(e, file@) && decodes(*decode, text, None::<T>),
                },
                None => res matches Err(e) && entry_error(
                    e,
                    spec_entry(old(self).data(), file@),
                    file@,
                ),
            },
    {
        match self.read_xml(file, decode) {
            Ok((value, _)) => Ok(value),
            Err(e) => Err(e),
        }
    }

    /// What reading the entry `file` gives once its text was decoded to
    /// `value`: the value and the text, or `Schema` with the path where
    /// the text did not have the expected structure.
    pub fn decoded<T>(file: &str, text: String, value: Option<T>) -> (res: Result<
        (T, String),
        Error,
    >)
        ensures
            match value {
                Some(v) => res == Ok::<(T, String), Error>((v, text)),
                None => res matches Err(e) && is_schema_error(e, file@),
            },
    {
        match value {
            Some(v) => Ok((v, text)),
            None => Err(Error::Schema(file.to_owned())),
        }
    }

    /// Opens the same bytes once more. The two archives share nothing
    /// that changes, so they can be read side by side.
    pub fn try_clone(&self) -> (res: Result<Archive, Error>)
        ensures
            res matches Ok(archive) && archive.data() == self.data(),
    {
        proof {
            use_type_invariant(self);
        }
        Archive::load(self.format.clone())
    }
}

} // verus!
