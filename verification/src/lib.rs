//! Reading EPUB archives: the container and package documents, content
//! fragment identifiers, and annotations that point into a book.

pub mod annotation;
pub mod archive;
pub mod asset;
pub mod canonical;
pub mod cfi;
pub mod document;
pub mod error;
pub mod iri;
pub mod mime;
pub mod text;
pub mod xhtml;

pub use crate::annotation::process;
pub use crate::annotation::Annotation;
pub use crate::annotation::RawAnnotation;
pub use crate::archive::Archive;
pub use crate::archive::MemoryZip;
pub use crate::cfi::Fragment;
pub use crate::document::open;
pub use crate::document::Container;
pub use crate::document::Epub;
pub use crate::document::Item;
pub use crate::document::ItemRef;
pub use crate::document::Manifest;
pub use crate::document::MetaField;
pub use crate::document::Metadata;
pub use crate::document::Package;
pub use crate::document::Rendition;
pub use crate::document::Rootfile;
pub use crate::document::Rootfiles;
pub use crate::document::Spine;
pub use crate::error::Error;
pub use crate::mime::guess_mime_type;
