//! Annotations as they arrive: the Web Annotation vocabulary, in which most
//! fields may hold one value or several, and a target or a body may take
//! one of many forms.

use vstd::prelude::*;
use crate::iri::Iri;

verus! {

/// One value, or several.
#[derive(Debug, Clone)]
pub enum Variable<T> {
    One(T),
    Many(Vec<T>),
}

/// Anything that can be read as a list of values.
pub trait IntoVec: Sized {
    type T;

    /// The values, in order.
    spec fn items(self) -> Seq<Self::T>;

    fn into_vec(self) -> (v: Vec<Self::T>)
        ensures
            v@ == self.items(),
    ;
}

impl<T> IntoVec for Variable<T> {
    type T = T;

    open spec fn items(self) -> Seq<T> {
        match self {
            Variable::One(t) => seq![t],
            Variable::Many(ts) => ts@,
        }
    }

    fn into_vec(self) -> (v: Vec<T>) {
        match self {
            Variable::One(t) => vec![t],
            Variable::Many(ts) => ts,
        }
    }
}

impl<T> IntoVec for Option<Variable<T>> {
    type T = T;

    open spec fn items(self) -> Seq<T> {
        match self {
            None => Seq::empty(),
            Some(t) => t.items(),
        }
    }

    fn into_vec(self) -> (v: Vec<T>) {
        match self {
            None => Vec::new(),
            Some(t) => t.into_vec(),
        }
    }
}

#[derive(Debug)]
pub struct Annotation {
    pub context: String,
    pub id: String,
    pub type_: String,
    pub body: Option<Variable<Body>>,
    pub body_value: Option<String>,
    pub target: Variable<Target>,
}

#[derive(Debug, Clone)]
pub struct ResourceFields {
    /// A media type, as text.
    pub format: Option<String>,
    pub language: Option<Variable<String>>,
    pub processing_language: Option<String>,
    pub text_direction: Option<String>,
}

#[derive(Debug)]
pub enum Body {
    Iri(Iri),
    TextualBody(TextualBody),
    SpecificResource(SpecificResource),
    Choice(Choice),
    ExternalWebResource(ExternalWebResource),
}

#[derive(Debug)]
pub struct SpecificResource {
    pub id: Option<String>,
    pub type_: Option<String>,
    pub source: Box<Target>,
    pub purpose: Option<String>,
    pub selector: Option<Variable<Selector>>,
}

#[derive(Debug)]
pub struct Choice {
    pub type_: String,
    pub items: Vec<Body>,
}

#[derive(Debug, Clone)]
pub struct TextualBody {
    pub id: Option<String>,
    pub type_: Option<String>,
    pub value: String,
    pub fields: ResourceFields,
}

#[derive(Debug)]
pub enum Target {
    Iri(Iri),
    SpecificResource(SpecificResource),
    ExternalWebResource(ExternalWebResource),
}

#[derive(Debug, Clone)]
pub struct ExternalWebResource {
    pub id: String,
    pub fields: ResourceFields,
}

#[derive(Debug)]
pub enum Selector {
    Iri(Iri),
    TaggedSelector(TaggedSelector),
}

#[derive(Debug)]
pub enum TaggedSelector {
    FragmentSelector(FragmentSelector),
    CssSelector(CssSelector),
    XPathSelector(XPathSelector),
    TextQuoteSelector(TextQuoteSelector),
    TextPositionSelector(TextPositionSelector),
    DataPositionSelector(DataPositionSelector),
    SvgSelector(SvgSelector),
    RangeSelector(RangeSelector),
}

#[derive(Debug, Clone)]
pub struct FragmentSelector {
    pub value: String,
    pub conforms_to: Option<Iri>,
}

#[derive(Debug, Clone)]
pub struct CssSelector {
    pub value: String,
}

#[derive(Debug, Clone)]
pub struct XPathSelector {
    pub value: String,
}

#[derive(Debug, Clone)]
pub struct TextQuoteSelector {
    pub exact: String,
    pub prefix: Option<String>,
    pub suffix: Option<String>,
}

#[derive(Debug, Clone)]
pub struct TextPositionSelector {
    pub start: u64,
    pub end: u64,
}

#[derive(Debug, Clone)]
pub struct DataPositionSelector {
    pub start: u64,
    pub end: u64,
}

#[derive(Debug, Clone)]
pub struct SvgSelector {
    pub id: Option<Iri>,
    pub value: Option<String>,
}

#[derive(Debug)]
pub struct RangeSelector {
    pub start_selector: Box<Selector>,
    pub end_selector: Box<Selector>,
}

} // verus!
