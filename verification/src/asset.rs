//! The files of a rendition, as a reader gets them.

use vstd::prelude::*;
use crate::archive::entry_error;
use crate::archive::same_error;
use crate::archive::spec_entry;
use crate::archive::Archive;
use crate::archive::Entry;
use crate::document::spec_join;
use crate::document::Epub;
use crate::document::Rendition;
use crate::error::Error;
use crate::mime::extension;
use crate::mime::guess_mime_type;
use crate::mime::spec_extension;
use crate::mime::spec_guess;
use crate::mime::spec_mime_type;
use crate::text::chars_of;
use crate::text::lowered;
use crate::text::tail_is_ignoring_case;
use crate::xhtml::process_xhtml;
use crate::xhtml::rewrite_outcome;
use crate::xhtml::spec_href;

verus! {

/// Whether `path` names a content document: its extension is `xhtml`, in
/// capital or small letters.
pub open spec fn is_markup(path: Seq<char>) -> bool {
    spec_extension(path) matches Some(ext) && lowered(ext) == lowered("xhtml"@)
}

/// Whether `path` names a content document.
pub fn has_markup_extension(path: &str) -> (b: bool)
    ensures
        b == is_markup(path@),
{
    match extension(path) {
        Some(ext) => {
            let chars = chars_of(ext.as_str());
            assert(chars@.skip(0) =~= chars@);
            tail_is_ignoring_case(&chars, 0, "xhtml")
        },
        None => false,
    }
}

/// Whether `res` is what the file at `path` of an archive, with the
/// bytes `contents`, is handed out as. A content document is rewritten
/// as [`process_xhtml`] does; any other file is handed out as it is.
pub open spec fn handed_out(
    path: Seq<char>,
    contents: Seq<u8>,
    res: Result<Vec<u8>, Error>,
) -> bool {
    if is_markup(path) {
        rewrite_outcome(contents, spec_href(path), path, res)
    } else {
        res matches Ok(out) && out@ == contents
    }
}

/// Prepares the file at `path` of an archive, with the bytes `contents`,
/// for a reader.
pub fn prepare(path: &str, contents: Vec<u8>) -> (res: Result<Vec<u8>, Error>)
    ensures
        handed_out(path@, contents@, res),
{
    if has_markup_extension(path) {
        process_xhtml(path, contents.as_slice())
    } else {
        Ok(contents)
    }
}

/// Whether `res` is what asking the archive `data` for the file
/// `path` of a rendition with the root `root` gives: the entry at the
/// root, a `/` and `path`, handed out as [`handed_out`] says, or the
/// error that reading the entry ends in.
pub open spec fn asset_of(
    data: Seq<u8>,
    root: Seq<char>,
    path: Seq<char>,
    res: Result<Vec<u8>, Error>,
) -> bool {
    let full = spec_join(root, path);
    match spec_entry(data, full) {
        Entry::Bytes(contents) => handed_out(full, contents, res),
        entry => res matches Err(e) && entry_error(e, entry, full),
    }
}

/// A content document of a rendition is handed out as [`process_xhtml`]
/// gives it for its path in the archive: both give the same bytes, or
/// both fail with the same error.
pub proof fn law_asset_is_rewritten(
    data: Seq<u8>,
    root: Seq<char>,
    path: Seq<char>,
    asset: Result<Vec<u8>, Error>,
    direct: Result<Vec<u8>, Error>,
)
    requires
        is_markup(spec_join(root, path)),
        spec_entry(data, spec_join(root, path)) is Bytes,
        asset_of(data, root, path, asset),
        rewrite_outcome(
            spec_entry(data, spec_join(root, path))->Bytes_0,
            spec_href(spec_join(root, path)),
            spec_join(root, path),
            direct,
        ),
    ensures
        match (asset, direct) {
            (Ok(a), Ok(b)) => a@ == b@,
            (Err(a), Err(b)) => same_error(a, b),
            _ => false,
        },
{
}

impl Rendition {
    /// Loads the file `path` of the rendition from `archive`.
    pub fn load_asset(&self, archive: &mut Archive, path: &str) -> (res: Result<Vec<u8>, Error>)
        ensures
            final(archive).data() == old(archive).data(),
            asset_of(old(archive).data(), self.root@, path@, res),
    {
        let full = self.file_path(path);
        match archive.read_file(full.as_str()) {
            Ok(contents) => prepare(full.as_str(), contents),
            Err(e) => Err(e),
        }
    }
}

/// Whether `e` says that the book has no rendition for which `path` could
/// be looked up.
pub open spec fn is_rendition_error(e: Error, path: Seq<char>) -> bool {
    e matches Error::NotFound(p) && p@ == path
}

impl Epub {
    /// Loads the file `path` of the rendition at `rendition` from
    /// `archive`. A book without that rendition gives `NotFound` with the
    /// path.
    pub fn load_asset(&self, archive: &mut Archive, rendition: usize, path: &str) -> (res: Result<
        Vec<u8>,
        Error,
    >)
        ensures
            final(archive).data() == old(archive).data(),
            if rendition < self.renditions.len() {
                asset_of(old(archive).data(), self.renditions[rendition as int].root@, path@, res)
            } else {
                res matches Err(e) && is_rendition_error(e, path@)
            },
    {
        if rendition < self.renditions.len() {
            self.renditions[rendition].load_asset(archive, path)
        } else {
            Err(Error::NotFound(path.to_owned()))
        }
    }

    /// Loads the file `path` of the rendition at `rendition` as
    /// [`Epub::load_asset`] does, and says what content type to serve it
    /// as.
    pub fn resolve_asset(&self, archive: &mut Archive, rendition: usize, path: &str) -> (res:
        Result<(Vec<u8>, String), Error>)
        ensures
            final(archive).data() == old(archive).data(),
            res matches Ok(found) ==> found.1@ == spec_mime_type(path@, spec_guess(path@)),
            if rendition < self.renditions.len() {
                asset_of(
                    old(archive).data(),
                    self.renditions[rendition as int].root@,
                    path@,
                    match res {
                        Ok(found) => Ok(found.0),
                        Err(e) => Err(e),
                    },
                )
            } else {
                res matches Err(e) && is_rendition_error(e, path@)
            },
    {
        match self.load_asset(archive, rendition, path) {
            Ok(bytes) => match guess_mime_type(path) {
                Some(hint) => Ok((bytes, hint)),
                None => unreached(),
            },
            Err(e) => Err(e),
        }
    }
}

} // verus!
