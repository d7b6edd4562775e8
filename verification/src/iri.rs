//! IRI references, as far as annotations need them: whether a text is one,
//! and the fragment it carries.

use vstd::prelude::*;

verus! {

/// Whether `text` is an IRI reference in the sense of RFC 3987. The
/// grammar itself is not written down here: this is what `iref` decides.
pub uninterp spec fn iri_reference_syntax(text: Seq<char>) -> bool;

/// The position of the first `#` at or behind `at`, or the length of
/// `text` if there is none.
pub open spec fn first_hash(text: Seq<char>, at: int) -> int
    decreases text.len() - at,
{
    if 0 <= at < text.len() && text[at] != '#' {
        first_hash(text, at + 1)
    } else {
        at
    }
}

/// The fragment of a reference: what follows its first `#`.
pub open spec fn fragment_of(text: Seq<char>) -> Option<Seq<char>> {
    let hash = first_hash(text, 0);
    if hash < text.len() {
        Some(text.skip(hash + 1))
    } else {
        None
    }
}

/// Calls `iref::IriRef::new` and tells whether it accepted `text`. The
/// contract gives that answer its name and claims nothing else.
#[verifier::external_body]
fn is_iri_reference(text: &str) -> (b: bool)
    ensures
        b == iri_reference_syntax(text@),
{
    iref::IriRef::new(text).is_ok()
}

/// Calls `iref::IriRef::fragment` on a text that is an IRI reference. In
/// `iref` the fragment is the part of the text behind the first `#`, and
/// there is none when the text holds no `#`; the contract says just that.
#[verifier::external_body]
fn reference_fragment(text: &str) -> (res: Option<String>)
    requires
        iri_reference_syntax(text@),
    ensures
        match fragment_of(text@) {
            Some(f) => res matches Some(r) && r@ == f,
            None => res is None,
        },
{
    match iref::IriRef::new(text) {
        Ok(reference) => reference.fragment().map(|f| f.as_str().to_owned()),
        Err(_) => None,
    }
}

/// A text that is an IRI reference.
#[derive(Debug, PartialEq, Eq)]
pub struct Iri {
    text: String,
}

impl View for Iri {
    type V = Seq<char>;

    closed spec fn view(&self) -> Seq<char> {
        self.text@
    }
}

impl Clone for Iri {
    fn clone(&self) -> (res: Iri)
        ensures
            res@ == self@,
    {
        proof {
            use_type_invariant(self);
        }
        Iri { text: self.text.clone() }
    }
}

impl Iri {
    #[verifier::type_invariant]
    spec fn well_formed(&self) -> bool {
        iri_reference_syntax(self.text@)
    }

    /// Accepts `text` if it is an IRI reference.
    pub fn new(text: String) -> (res: Option<Iri>)
        ensures
            res is Some <==> iri_reference_syntax(text@),
            res matches Some(iri) ==> iri@ == text@,
    {
        if is_iri_reference(text.as_str()) {
            Some(Iri { text })
        } else {
            None
        }
    }

    /// The text of the reference, which is an IRI reference as every value
    /// of this type is.
    pub fn as_str(&self) -> (s: &str)
        ensures
            s@ == self@,
            iri_reference_syntax(self@),
    {
        proof {
            use_type_invariant(self);
        }
        self.text.as_str()
    }

    /// The fragment of the reference, if it has one.
    pub fn fragment(&self) -> (res: Option<String>)
        ensures
            match fragment_of(self@) {
                Some(f) => res matches Some(r) && r@ == f,
                None => res is None,
            },
    {
        proof {
            use_type_invariant(self);
        }
        reference_fragment(self.text.as_str())
    }
}

} // verus!
