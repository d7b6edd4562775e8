//! The documents that describe a book: the container, which lists the
//! renditions, and the package of each rendition.

use vstd::prelude::*;
use vstd::string::StrSliceExecFns;
use vstd::string::StringExecFns;
use crate::archive::decodes;
use crate::archive::entry_error;
use crate::archive::is_schema_error;
use crate::archive::spec_entry;
use crate::archive::spec_text;
use crate::archive::zip_directory;
use crate::archive::Archive;
use crate::archive::Fault;
use crate::archive::MemoryZip;
use crate::error::Error;
use crate::text::after_last;
use crate::text::chars_of;
use crate::text::last_position;
use crate::text::same_text;

verus! {

/// Where every book keeps its container.
pub const CONTAINER_PATH: &'static str = "META-INF/container.xml";

/// The package version that this library reads.
pub const SUPPORTED_VERSION: &'static str = "3.0";

#[derive(Debug, Clone)]
pub struct Package {
    pub version: String,
    pub unique_identifier: String,
    pub metadata: Metadata,
    pub manifest: Manifest,
    pub spine: Spine,
}

#[derive(Debug, Clone)]
pub struct Metadata {
    pub fields: Vec<MetaField>,
}

#[derive(Debug, Clone)]
pub enum MetaField {
    Title(String),
    Language(String),
    Identifier(String),
    Creator(String),
    Date(String),
    Unknown,
}

#[derive(Debug, Clone)]
pub struct Manifest {
    pub items: Vec<Item>,
}

#[derive(Debug, Clone)]
pub struct Item {
    pub id: String,
    pub href: String,
    pub media_type: String,
    pub properties: Option<String>,
}

#[derive(Debug, Clone)]
pub struct Spine {
    pub itemrefs: Vec<ItemRef>,
}

#[derive(Debug, Clone)]
pub struct ItemRef {
    pub idref: String,
}

/// One version of the work: its package, and the directory that the
/// paths in the package are relative to.
#[derive(Debug, Clone)]
pub struct Rendition {
    pub package: Package,
    pub root: String,
}

#[derive(Debug, Clone)]
pub struct Container {
    pub version: String,
    pub rootfiles: Rootfiles,
}

#[derive(Debug, Clone)]
pub struct Rootfiles {
    pub rootfiles: Vec<Rootfile>,
}

#[derive(Debug, Clone)]
pub struct Rootfile {
    pub full_path: String,
    pub media_type: String,
}

/// A book: its renditions, in the order in which the container lists them.
#[derive(Debug, Clone)]
pub struct Epub {
    pub renditions: Vec<Rendition>,
}

/// The position of the last `/` in `path`, or -1 if there is none.
pub open spec fn last_slash(path: Seq<char>) -> int {
    last_position(path, '/')
}

/// The directory of `path`: what stands before its last `/`, so that the
/// directory, a `/` and the rest give `path` back as it stands. A path
/// without a `/`, or with nothing before it, has none.
pub open spec fn spec_parent(path: Seq<char>) -> Option<Seq<char>> {
    if last_slash(path) > 0 {
        Some(path.take(last_slash(path)))
    } else {
        None
    }
}

/// `root`, a `/` and `path`.
pub open spec fn spec_join(root: Seq<char>, path: Seq<char>) -> Seq<char> {
    root + seq!['/'] + path
}

/// The directory of `path`.
pub fn parent_directory(path: &str) -> (res: Option<String>)
    ensures
        match spec_parent(path@) {
            Some(parent) => res matches Some(p) && p@ == parent,
            None => res is None,
        },
{
    let chars = chars_of(path);
    let end = after_last(&chars, chars.len(), '/');
    assert(chars@.take(chars.len() as int) =~= chars@);
    if end > 1 {
        assert(path@.subrange(0, end - 1) =~= path@.take(end - 1));
        Some(path.substring_char(0, end - 1).to_owned())
    } else {
        None
    }
}

/// Whether `e` says that the rootfile path `path` names no directory.
pub open spec fn is_rootless_error(e: Error, path: Seq<char>) -> bool {
    e matches Error::Schema(p) && p@ == path
}

/// Whether `e` says that a package declares the version `version`, which
/// is not supported.
pub open spec fn is_version_error(e: Error, version: Seq<char>) -> bool {
    e matches Error::Format(v) && v@ == version
}

/// Whether `rendition` may be what loading `rootfile` from the archive
/// `data` gives, with `decode` to read the package document.
pub open spec fn loads<F: Fn(&str) -> Option<Package>>(
    data: Seq<u8>,
    rootfile: Rootfile,
    decode: F,
    rendition: Rendition,
) -> bool {
    &&& spec_parent(rootfile.full_path@) == Some(rendition.root@)
    &&& spec_text(data, rootfile.full_path@) matches Some(text) && decodes(
        decode,
        text,
        Some(rendition.package),
    )
}

/// Whether loading `rootfile` from the archive `data` may end in `e`.
pub open spec fn load_fails<F: Fn(&str) -> Option<Package>>(
    data: Seq<u8>,
    rootfile: Rootfile,
    decode: F,
    e: Error,
) -> bool {
    let path = rootfile.full_path@;
    match spec_parent(path) {
        None => is_rootless_error(e, path),
        Some(_) => match spec_text(data, path) {
            None => entry_error(e, spec_entry(data, path), path),
            Some(text) => is_schema_error(e, path) && decodes(decode, text, None::<Package>),
        },
    }
}

impl Rendition {
    /// The rendition that `rootfile` declares, once its package document was
    /// decoded to `package`. Its root is the directory of the rootfile; a
    /// rootfile without one is an error, since nothing could be addressed
    /// relative to it.
    pub fn new(rootfile: &Rootfile, package: Package) -> (res: Result<Rendition, Error>)
        ensures
            match spec_parent(rootfile.full_path@) {
                Some(root) => res matches Ok(r) && r.root@ == root && r.package == package,
                None => res matches Err(e) && is_rootless_error(e, rootfile.full_path@),
            },
    {
        match parent_directory(rootfile.full_path.as_str()) {
            Some(root) => Ok(Rendition { package, root }),
            None => Err(Error::Schema(rootfile.full_path.clone())),
        }
    }

    /// Loads the rendition that `rootfile` declares from `archive`, with
    /// `decode` to read the package document.
    ///
    /// A rootfile without a directory is an error before anything is read.
    /// Else the entry at the rootfile's path is read as text; where that
    /// fails the error says why, and where `decode` gives nothing the error
    /// is `Schema` with the path.
    pub fn load<F: Fn(&str) -> Option<Package>>(
        archive: &mut Archive,
        rootfile: &Rootfile,
        decode: &F,
    ) -> (res: Result<Rendition, Error>)
        requires
            forall|text: &str| decode.requires((text,)),
        ensures
            final(archive).data() == old(archive).data(),
            match res {
                Ok(rendition) => loads(old(archive).data(), *rootfile, *decode, rendition),
                Err(e) => load_fails(old(archive).data(), *rootfile, *decode, e),
            },
    {
        if parent_directory(rootfile.full_path.as_str()).is_none() {
            return Err(Error::Schema(rootfile.full_path.clone()));
        }
        match archive.read_xml(rootfile.full_path.as_str(), decode) {
            Ok((package, _)) => Rendition::new(rootfile, package),
            Err(e) => Err(e),
        }
    }

    /// Looks up the item of the manifest whose id is `id`: the first such
    /// item, or `None` if the manifest has none.
    pub fn item(&self, id: &str) -> (res: Option<&Item>)
        ensures
            match res {
                Some(item) => exists|at: int|
                    0 <= at < self.package.manifest.items.len() && *item
                        == #[trigger] self.package.manifest.items[at] && item.id@ == id@
                        && forall|j: int|
                        0 <= j < at ==> (#[trigger] self.package.manifest.items[j]).id@ != id@,
                None => forall|i: int|
                    0 <= i < self.package.manifest.items.len() ==> (
                    #[trigger] self.package.manifest.items[i]).id@ != id@,
            },
    {
        let items = &self.package.manifest.items;
        let mut i: usize = 0;
        while i < items.len()
            invariant
                items == &self.package.manifest.items,
                i <= items.len(),
                forall|j: int| 0 <= j < i ==> (#[trigger] items[j]).id@ != id@,
            decreases items.len() - i,
        {
            if same_text(items[i].id.as_str(), id) {
                return Some(&items[i]);
            }
            i = i + 1;
        }
        None
    }

    /// The path in the archive of a file of the rendition: the root, a `/`
    /// and `path`.
    pub fn file_path(&self, path: &str) -> (res: String)
        ensures
            res@ == spec_join(self.root@, path@),
    {
        let mut full = self.root.clone();
        proof {
            reveal_strlit("/");
            assert("/"@ =~= seq!['/']);
        }
        full.append("/");
        full.append(path);
        full
    }
}

/// Whether the package of `rendition` declares the supported version.
pub open spec fn supported(rendition: Rendition) -> bool {
    rendition.package.version@ == SUPPORTED_VERSION@
}

/// Whether `epub` may be the book that `container` describes in the
/// archive `data`: one rendition for each rootfile, in the order of the
/// list, each of the supported version.
pub open spec fn book_of<P: Fn(&str) -> Option<Package>>(
    data: Seq<u8>,
    container: Container,
    decode: P,
    epub: Epub,
) -> bool {
    &&& epub.renditions.len() == container.rootfiles.rootfiles.len()
    &&& forall|i: int|
        0 <= i < epub.renditions.len() ==> supported(#[trigger] epub.renditions[i]) && loads(
            data,
            container.rootfiles.rootfiles[i],
            decode,
            epub.renditions[i],
        )
}

/// Whether loading the book that `container` describes may end in `e`:
/// one of the rootfiles fails to load, or a package declares a version
/// that is not supported.
pub open spec fn book_fails<P: Fn(&str) -> Option<Package>>(
    data: Seq<u8>,
    container: Container,
    decode: P,
    e: Error,
) -> bool {
    ||| exists|k: int|
        0 <= k < container.rootfiles.rootfiles.len() && #[trigger] load_fails(
            data,
            container.rootfiles.rootfiles[k],
            decode,
            e,
        )
    ||| exists|k: int, rendition: Rendition|
        0 <= k < container.rootfiles.rootfiles.len() && #[trigger] loads(
            data,
            container.rootfiles.rootfiles[k],
            decode,
            rendition,
        ) && !supported(rendition) && is_version_error(e, rendition.package.version@)
}

/// Whether `res` is the book of `renditions`: all of them, if each
/// declares the supported version; else the error for the first that does
/// not, with the version that it declares.
pub open spec fn book_outcome(renditions: Seq<Rendition>, res: Result<Epub, Error>) -> bool {
    &&& res is Ok <==> forall|i: int|
        0 <= i < renditions.len() ==> supported(#[trigger] renditions[i])
    &&& res matches Ok(epub) ==> epub.renditions@ == renditions
    &&& res matches Err(e) ==> exists|k: int|
        0 <= k < renditions.len() && !supported(#[trigger] renditions[k]) && is_version_error(
            e,
            renditions[k].package.version@,
        ) && forall|j: int| 0 <= j < k ==> supported(#[trigger] renditions[j])
}

/// One rendition of another version fails the whole book.
pub proof fn law_one_version_fails_all(
    renditions: Seq<Rendition>,
    k: int,
    res: Result<Epub, Error>,
)
    requires
        book_outcome(renditions, res),
        0 <= k < renditions.len(),
        !supported(renditions[k]),
    ensures
        res is Err,
{
}

/// A book that was loaded is whole: it has one rendition for each
/// rootfile of a container that was decoded, in the order of the list, and
/// each declares the supported version.
pub proof fn law_loaded_book_is_whole<
    C: Fn(&str) -> Option<Container>,
    P: Fn(&str) -> Option<Package>,
>(
    data: Seq<u8>,
    decode_container: C,
    decode_package: P,
    epub: Epub,
)
    requires
        load_outcome(data, decode_container, decode_package, Ok(epub)),
    ensures
        forall|i: int| 0 <= i < epub.renditions.len() ==> supported(#[trigger] epub.renditions[i]),
        exists|container: Container|
            epub.renditions.len() == container.rootfiles.rootfiles.len() && forall|i: int|
                0 <= i < epub.renditions.len() ==> spec_parent(
                    #[trigger] container.rootfiles.rootfiles[i].full_path@,
                ) == Some(epub.renditions[i].root@),
{
    let text = spec_text(data, CONTAINER_PATH@)->0;
    let container = choose|container: Container|
        #[trigger] decodes(decode_container, text, Some(container)) && book_of(
            data,
            container,
            decode_package,
            epub,
        );
    assert forall|i: int| 0 <= i < epub.renditions.len() implies spec_parent(
        #[trigger] container.rootfiles.rootfiles[i].full_path@,
    ) == Some(epub.renditions[i].root@) by {
        assert(supported(epub.renditions[i]));
    }
}

/// Whether `res` may be what loading the book from the archive `data`
/// gives.
///
/// Where the container cannot be read as text, the error says why. Where
/// `decode_container` gives nothing for it, the error is `Schema` with
/// [`CONTAINER_PATH`]. Else the result is the book that the container
/// describes, or the error of the first step that failed.
pub open spec fn load_outcome<C: Fn(&str) -> Option<Container>, P: Fn(&str) -> Option<Package>>(
    data: Seq<u8>,
    decode_container: C,
    decode_package: P,
    res: Result<Epub, Error>,
) -> bool {
    match spec_text(data, CONTAINER_PATH@) {
        None => res matches Err(e) && entry_error(
            e,
            spec_entry(data, CONTAINER_PATH@),
            CONTAINER_PATH@,
        ),
        Some(text) => match res {
            Ok(epub) => exists|container: Container|
                #[trigger] decodes(decode_container, text, Some(container)) && book_of(
                    data,
                    container,
                    decode_package,
                    epub,
                ),
            Err(e) => {
                ||| is_schema_error(e, CONTAINER_PATH@) && decodes(
                    decode_container,
                    text,
                    None::<Container>,
                )
                ||| exists|container: Container|
                    #[trigger] decodes(decode_container, text, Some(container)) && book_fails(
                        data,
                        container,
                        decode_package,
                        e,
                    )
            },
        },
    }
}

impl Epub {
    /// The book of these renditions. Every rendition has to declare the
    /// supported version: one that does not fails the whole book, and the
    /// error carries the version that the first such rendition declares.
    pub fn new(renditions: Vec<Rendition>) -> (res: Result<Epub, Error>)
        ensures
            book_outcome(renditions@, res),
    {
        let mut i: usize = 0;
        while i < renditions.len()
            invariant
                i <= renditions.len(),
                forall|j: int| 0 <= j < i ==> supported(#[trigger] renditions[j]),
            decreases renditions.len() - i,
        {
            if !same_text(renditions[i].package.version.as_str(), SUPPORTED_VERSION) {
                assert(!supported(renditions[i as int]));
                return Err(Error::Format(renditions[i].package.version.clone()));
            }
            i = i + 1;
        }
        Ok(Epub { renditions })
    }

    /// Loads the book that `archive` holds, with `decode_container` and
    /// `decode_package` to read the container and the package documents.
    ///
    /// The container is read from [`CONTAINER_PATH`]; each rootfile that
    /// it lists is loaded as [`Rendition::load`] does, in the order of the
    /// list and from a clone of the archive; then [`Epub::new`] holds the
    /// renditions to the supported version. The first step that fails
    /// fails the load: there is no book with some of its renditions.
    pub fn load<C: Fn(&str) -> Option<Container>, P: Fn(&str) -> Option<Package>>(
        archive: &mut Archive,
        decode_container: &C,
        decode_package: &P,
    ) -> (res: Result<Epub, Error>)
        requires
            forall|text: &str| decode_container.requires((text,)),
            forall|text: &str| decode_package.requires((text,)),
        ensures
            final(archive).data() == old(archive).data(),
            load_outcome(old(archive).data(), *decode_container, *decode_package, res),
    {
        let ghost data = archive.data();
        let container: Container = match archive.read_xml(CONTAINER_PATH, decode_container) {
            Ok((container, _)) => container,
            Err(e) => { return Err(e); },
        };
        let ghost text = spec_text(data, CONTAINER_PATH@)->0;
        let rootfiles = &container.rootfiles.rootfiles;
        let mut renditions: Vec<Rendition> = Vec::new();
        let mut i: usize = 0;
        while i < rootfiles.len()
            invariant
                rootfiles == &container.rootfiles.rootfiles,
                archive.data() == data,
                data == old(archive).data(),
                spec_text(data, CONTAINER_PATH@) == Some(text),
                decodes(*decode_container, text, Some(container)),
                i <= rootfiles.len(),
                renditions.len() == i,
                forall|text: &str| decode_package.requires((text,)),
                forall|j: int|
                    0 <= j < i ==> loads(
                        data,
                        rootfiles[j],
                        *decode_package,
                        #[trigger] renditions[j],
                    ),
            ensures
                i == rootfiles.len(),
            decreases rootfiles.len() - i,
        {
            let mut clone = match archive.try_clone() {
                Ok(clone) => clone,
                Err(e) => { return Err(e); },
            };
            match Rendition::load(&mut clone, &rootfiles[i], decode_package) {
                Ok(rendition) => {
                    renditions.push(rendition);
                },
                Err(e) => {
                    assert(load_fails(
                        data,
                        container.rootfiles.rootfiles[i as int],
                        *decode_package,
                        e,
                    ));
                    assert(book_fails(data, container, *decode_package, e));
                    assert(decodes(*decode_container, text, Some(container)));
                    return Err(e);
                },
            }
            i = i + 1;
        }
        let ghost loaded = renditions@;
        match Epub::new(renditions) {
            Ok(epub) => {
                assert(epub.renditions@ == loaded);
                assert(book_of(data, container, *decode_package, epub));
                Ok(epub)
            },
            Err(e) => {
                let ghost k = choose|k: int|
                    0 <= k < loaded.len() && !supported(#[trigger] loaded[k]) && is_version_error(
                        e,
                        loaded[k].package.version@,
                    );
                assert(loads(data, container.rootfiles.rootfiles[k], *decode_package, loaded[k]));
                assert(book_fails(data, container, *decode_package, e));
                Err(e)
            },
        }
    }
}


/// Opens the archive that `backing` holds and loads the book in it.
///
/// Bytes that are no ZIP archive are an error, `Io` or `Format` as the
/// fault is; else the outcome is that of [`Epub::load`], and the archive
/// comes back with the book, to read its files from.
pub fn open<C: Fn(&str) -> Option<Container>, P: Fn(&str) -> Option<Package>>(
    backing: MemoryZip,
    decode_container: &C,
    decode_package: &P,
) -> (res: Result<(Archive, Epub), Error>)
    requires
        forall|text: &str| decode_container.requires((text,)),
        forall|text: &str| decode_package.requires((text,)),
    ensures
        match res {
            Ok((archive, epub)) => archive.data() == backing@ && load_outcome(
                backing@,
                *decode_container,
                *decode_package,
                Ok(epub),
            ),
            Err(e) => match zip_directory(backing@) {
                Ok(_) => load_outcome(backing@, *decode_container, *decode_package, Err(e)),
                Err(Fault::Io) => e is Io,
                Err(Fault::Format) => e is Format,
            },
        },
{
    let mut archive = match Archive::load(backing) {
        Ok(archive) => archive,
        Err(e) => { return Err(e); },
    };
    match Epub::load(&mut archive, decode_container, decode_package) {
        Ok(epub) => Ok((archive, epub)),
        Err(e) => Err(e),
    }
}

} // verus!
