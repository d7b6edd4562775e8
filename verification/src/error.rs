//! The errors that reading a book can end in.

use vstd::prelude::*;

verus! {

/// Where a fragment identifier stopped matching its grammar.
#[derive(Clone, Debug, PartialEq, Eq)]
pub struct ParseError {
    /// The whole text that was handed to the parser.
    pub text: String,
    /// How many characters were consumed before the parser was stuck.
    pub position: usize,
    /// The characters from `position` on.
    pub remaining: String,
}

/// Why an annotation is outside the supported subset.
#[derive(Clone, Copy, Debug, PartialEq, Eq)]
pub enum Shape {
    /// The annotation does not have exactly one target.
    TargetCount,
    /// The target is a bare reference without a fragment.
    MissingFragment,
    /// The target is an external web resource.
    ExternalTarget,
    /// The specific resource does not have exactly one selector.
    SelectorCount,
    /// The selector is not a fragment selector.
    SelectorKind,
    /// The fragment selector does not declare the EPUB CFI conformance.
    Conformance,
    /// The annotation does not have exactly one body.
    BodyCount,
    /// The body is not a textual body.
    BodyKind,
}

/// An error of this library. Each variant carries what is needed to find
/// the offending input again.
#[derive(Clone, Debug, PartialEq, Eq)]
pub enum Error {
    /// Bytes could not be read. Carries the path of the entry, or for a
    /// whole archive what the reader said.
    Io(String),
    /// The bytes are not a ZIP archive, an entry is damaged, a content
    /// document is not well formed, or a package declares a version that
    /// is not supported. Carries the path of the entry, the version, or
    /// for a whole archive what the reader said.
    Format(String),
    /// No entry or item under this path or identifier.
    NotFound(String),
    /// The entry at this path is not UTF-8.
    Encoding(String),
    /// The entry at this path does not have the expected structure.
    Schema(String),
    /// A fragment identifier does not follow the grammar.
    Parse(ParseError),
    /// An annotation is well formed but outside the supported subset.
    UnsupportedShape(Shape),
}

} // verus!
