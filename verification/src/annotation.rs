//! Annotations on a book, narrowed from the Web Annotation vocabulary to a
//! fragment identifier and an optional text.

pub mod raw;

pub use raw::Annotation as RawAnnotation;

use vstd::prelude::*;
use crate::annotation::raw::Body;
use crate::annotation::raw::IntoVec;
use crate::annotation::raw::Selector;
use crate::annotation::raw::TaggedSelector;
use crate::annotation::raw::Target;
use crate::cfi::spec_parse;
use crate::cfi::Fragment;
use crate::cfi::FragmentModel;
use crate::error::Error;
use crate::error::Shape;
use crate::iri::fragment_of;
use crate::text::same_text;

verus! {

/// What a fragment selector has to declare in `conformsTo`.
pub const EPUB_CFI: &'static str = "http://www.idpf.org/epub/linking/cfi/epub-cfi.html";

/// An annotation in its canonical shape: where it points, and what it says.
#[derive(Clone, Debug)]
pub struct Annotation {
    pub selector: Fragment,
    pub body: Option<String>,
}

/// What an [`Annotation`] stands for.
pub struct AnnotationModel {
    pub selector: FragmentModel,
    pub body: Option<Seq<char>>,
}

impl View for Annotation {
    type V = AnnotationModel;

    open spec fn view(&self) -> AnnotationModel {
        AnnotationModel {
            selector: self.selector@,
            body: match self.body {
                Some(b) => Some(b@),
                None => None,
            },
        }
    }
}

/// Why a raw annotation has no canonical shape.
pub enum Failure {
    /// It is outside the supported subset.
    Shape(Shape),
    /// Its selector is not a fragment identifier: `text` stops fitting the
    /// grammar at `position`.
    Parse { text: Seq<char>, position: int },
}

/// The text in which `target` says where it points: its fragment if it is
/// a bare reference, the value of its only selector if it is a specific
/// resource and the selector is a fragment selector that declares
/// [`EPUB_CFI`].
pub open spec fn target_selector(target: Target) -> Result<Seq<char>, Shape> {
    match target {
        Target::Iri(iri) => match fragment_of(iri@) {
            Some(fragment) => Ok(fragment),
            None => Err(Shape::MissingFragment),
        },
        Target::SpecificResource(resource) => {
            let selectors = resource.selector.items();
            if selectors.len() != 1 {
                Err(Shape::SelectorCount)
            } else {
                match selectors[0] {
                    Selector::TaggedSelector(TaggedSelector::FragmentSelector(f)) => {
                        if f.conforms_to matches Some(c) && c@ == EPUB_CFI@ {
                            Ok(f.value@)
                        } else {
                            Err(Shape::Conformance)
                        }
                    },
                    _ => Err(Shape::SelectorKind),
                }
            }
        },
        Target::ExternalWebResource(_) => Err(Shape::ExternalTarget),
    }
}

/// The text in which a raw annotation says where it points: that of its
/// only target.
pub open spec fn spec_selector(a: RawAnnotation) -> Result<Seq<char>, Shape> {
    let targets = a.target.items();
    if targets.len() != 1 {
        Err(Shape::TargetCount)
    } else {
        target_selector(targets[0])
    }
}

/// What a raw annotation says: its `bodyValue` if it has one, else the
/// value of its only body, which has to be a textual body, else nothing.
pub open spec fn bodies_text(
    body_value: Option<String>,
    body: Option<raw::Variable<Body>>,
) -> Result<Option<Seq<char>>, Shape> {
    match body_value {
        Some(value) => Ok(Some(value@)),
        None => match body {
            Some(body) => {
                let bodies = body.items();
                if bodies.len() != 1 {
                    Err(Shape::BodyCount)
                } else {
                    match bodies[0] {
                        Body::TextualBody(t) => Ok(Some(t.value@)),
                        _ => Err(Shape::BodyKind),
                    }
                }
            },
            None => Ok(None),
        },
    }
}

/// What a raw annotation says.
pub open spec fn spec_body(a: RawAnnotation) -> Result<Option<Seq<char>>, Shape> {
    bodies_text(a.body_value, a.body)
}

/// The canonical shape of a raw annotation. The target is looked at first,
/// then the body, then the selector is parsed.
pub open spec fn spec_normalize(a: RawAnnotation) -> Result<AnnotationModel, Failure> {
    match spec_selector(a) {
        Err(shape) => Err(Failure::Shape(shape)),
        Ok(text) => match spec_body(a) {
            Err(shape) => Err(Failure::Shape(shape)),
            Ok(body) => match spec_parse(text) {
                Err(position) => Err(Failure::Parse { text, position }),
                Ok(selector) => Ok(AnnotationModel { selector, body }),
            },
        },
    }
}

/// An annotation that does not have exactly one target has no canonical
/// shape, whatever else it holds.
pub proof fn law_one_target_only(a: RawAnnotation)
    requires
        a.target.items().len() != 1,
    ensures
        spec_normalize(a) == Err::<AnnotationModel, Failure>(Failure::Shape(Shape::TargetCount)),
{
}

/// An annotation whose only target is a bare reference points where the
/// fragment of the reference says: it has a canonical shape exactly when
/// the reference has a fragment, the body is of a supported kind and the
/// fragment is a fragment identifier.
pub proof fn law_bare_reference(a: RawAnnotation)
    requires
        a.target.items().len() == 1,
        a.target.items()[0] is Iri,
    ensures
        spec_normalize(a) is Ok <==> fragment_of(a.target.items()[0]->Iri_0@) is Some && spec_body(
            a,
        ) is Ok && spec_parse(fragment_of(a.target.items()[0]->Iri_0@)->0) is Ok,
        spec_normalize(a) matches Ok(normal) ==> spec_parse(
            fragment_of(a.target.items()[0]->Iri_0@)->0,
        ) == Ok::<FragmentModel, int>(normal.selector),
{
}

/// An annotation whose only target is a specific resource with one
/// fragment selector that declares [`EPUB_CFI`] points where the value of
/// the selector says.
pub proof fn law_conformant_selector(
    a: RawAnnotation,
    resource: raw::SpecificResource,
    selector: raw::FragmentSelector,
)
    requires
        a.target.items() == seq![Target::SpecificResource(resource)],
        resource.selector.items() == seq![
            Selector::TaggedSelector(TaggedSelector::FragmentSelector(selector)),
        ],
        selector.conforms_to matches Some(c) && c@ == EPUB_CFI@,
        spec_body(a) is Ok,
    ensures
        match spec_parse(selector.value@) {
            Ok(fragment) => spec_normalize(a) == Ok::<AnnotationModel, Failure>(
                AnnotationModel { selector: fragment, body: spec_body(a)->Ok_0 },
            ),
            Err(position) => spec_normalize(a) == Err::<AnnotationModel, Failure>(
                Failure::Parse { text: selector.value@, position },
            ),
        },
{
    assert(a.target.items()[0] == Target::SpecificResource(resource));
    assert(resource.selector.items()[0] == Selector::TaggedSelector(
        TaggedSelector::FragmentSelector(selector),
    ));
}

/// An annotation with a `bodyValue` says just that, whatever its `body`
/// holds.
pub proof fn law_body_value_wins(a: RawAnnotation)
    requires
        a.body_value is Some,
    ensures
        spec_body(a) == Ok::<Option<Seq<char>>, Shape>(Some(a.body_value->0@)),
        spec_normalize(a) matches Ok(normal) ==> normal.body == Some(a.body_value->0@),
{
}

/// Whether the error `e` reports the failure `f`.
pub open spec fn reports(e: Error, f: Failure) -> bool {
    match f {
        Failure::Shape(shape) => e == Error::UnsupportedShape(shape),
        Failure::Parse { text, position } => e matches Error::Parse(p) && p.text@ == text
            && p.position == position && p.remaining@ == text.skip(position),
    }
}

/// Finds the text in which `target` and nothing else says where the
/// annotation points.
fn selector_text(target: Target) -> (res: Result<String, Shape>)
    ensures
        match res {
            Ok(text) => target_selector(target) == Ok::<Seq<char>, Shape>(text@),
            Err(shape) => target_selector(target) == Err::<Seq<char>, Shape>(shape),
        },
{
    match target {
        Target::Iri(iri) => match iri.fragment() {
            Some(fragment) => Ok(fragment),
            None => Err(Shape::MissingFragment),
        },
        Target::SpecificResource(resource) => {
            let mut selectors = resource.selector.into_vec();
            if selectors.len() != 1 {
                return Err(Shape::SelectorCount);
            }
            match selectors.remove(0) {
                Selector::TaggedSelector(TaggedSelector::FragmentSelector(f)) => {
                    let conforms = match &f.conforms_to {
                        Some(c) => same_text(c.as_str(), EPUB_CFI),
                        None => false,
                    };
                    if conforms {
                        Ok(f.value)
                    } else {
                        Err(Shape::Conformance)
                    }
                },
                _ => Err(Shape::SelectorKind),
            }
        },
        Target::ExternalWebResource(_) => Err(Shape::ExternalTarget),
    }
}

/// Finds what the annotation says, from its `bodyValue` and its `body`.
fn body_text(body_value: Option<String>, body: Option<raw::Variable<Body>>) -> (res: Result<
    Option<String>,
    Shape,
>)
    ensures
        match res {
            Ok(Some(text)) => bodies_text(body_value, body) == Ok::<Option<Seq<char>>, Shape>(
                Some(text@),
            ),
            Ok(None) => bodies_text(body_value, body) == Ok::<Option<Seq<char>>, Shape>(None),
            Err(shape) => bodies_text(body_value, body) == Err::<Option<Seq<char>>, Shape>(shape),
        },
{
    match body_value {
        Some(value) => Ok(Some(value)),
        None => match body {
            Some(body) => {
                let mut bodies = body.into_vec();
                if bodies.len() != 1 {
                    return Err(Shape::BodyCount);
                }
                match bodies.remove(0) {
                    Body::TextualBody(t) => Ok(Some(t.value)),
                    _ => Err(Shape::BodyKind),
                }
            },
            None => Ok(None),
        },
    }
}

/// Brings one raw annotation into its canonical shape.
///
/// The result is `Ok` exactly when [`spec_normalize`] gives a shape, and
/// is then that shape; else the error reports the failure that
/// [`spec_normalize`] gives.
pub fn normalize(annotation: RawAnnotation) -> (res: Result<Annotation, Error>)
    ensures
        match spec_normalize(annotation) {
            Ok(model) => res matches Ok(a) && a@ == model,
            Err(failure) => res matches Err(e) && reports(e, failure),
        },
{
    let RawAnnotation { context: _, id: _, type_: _, body, body_value, target } = annotation;
    let mut targets = target.into_vec();
    if targets.len() != 1 {
        return Err(Error::UnsupportedShape(Shape::TargetCount));
    }
    let text = match selector_text(targets.remove(0)) {
        Ok(text) => text,
        Err(shape) => { return Err(Error::UnsupportedShape(shape)); },
    };
    let body = match body_text(body_value, body) {
        Ok(body) => body,
        Err(shape) => { return Err(Error::UnsupportedShape(shape)); },
    };
    match Fragment::parse(text.as_str()) {
        Ok(selector) => Ok(Annotation { selector, body }),
        Err(e) => Err(e),
    }
}

/// Brings a batch of raw annotations into their canonical shape, in order.
/// One annotation that has none fails the batch: the error is that of the
/// first such annotation.
pub fn process(annotations: Vec<RawAnnotation>) -> (res: Result<Vec<Annotation>, Error>)
    ensures
        res is Ok <==> forall|i: int|
            0 <= i < annotations.len() ==> (#[trigger] spec_normalize(annotations[i])) is Ok,
        res matches Ok(normal) ==> normal.len() == annotations.len() && forall|i: int|
            0 <= i < annotations.len() ==> #[trigger] spec_normalize(annotations[i]) == Ok::<
                AnnotationModel,
                Failure,
            >(normal[i]@),
        res matches Err(e) ==> exists|k: int|
            0 <= k < annotations.len() && reports(
                e,
                #[trigger] spec_normalize(annotations[k])->Err_0,
            )
                && spec_normalize(annotations[k]) is Err && forall|j: int|
                0 <= j < k ==> (#[trigger] spec_normalize(annotations[j])) is Ok,
{
    let ghost all = annotations@;
    let mut normal: Vec<Annotation> = Vec::new();
    for annotation in it: annotations
        invariant
            it.seq() == all,
            normal.len() == it.index(),
            forall|i: int|
                0 <= i < it.index() ==> #[trigger] spec_normalize(all[i]) == Ok::<
                    AnnotationModel,
                    Failure,
                >(normal[i]@),
    {
        let ghost k = it.index() as int;
        match normalize(annotation) {
            Ok(a) => {
                normal.push(a);
            },
            Err(e) => {
                assert(spec_normalize(all[k]) is Err);
                return Err(e);
            },
        }
    }
    Ok(normal)
}

} // verus!
