use bene_epub::annotation::raw::{
    Body, Choice, CssSelector, DataPositionSelector, ExternalWebResource, FragmentSelector,
    IntoVec, RangeSelector, ResourceFields, Selector, SpecificResource, SvgSelector,
    TaggedSelector, Target, TextPositionSelector, TextQuoteSelector, TextualBody, Variable,
    XPathSelector,
};
use bene_epub::annotation::{normalize, process, EPUB_CFI};
use bene_epub::cfi::{Offset, PathComponent};
use bene_epub::error::{Error, Shape};
use bene_epub::iri::Iri;
use bene_epub::RawAnnotation;

fn iri(text: &str) -> Iri {
    Iri::new(text.to_string()).unwrap()
}

fn no_fields() -> ResourceFields {
    ResourceFields { format: None, language: None, processing_language: None, text_direction: None }
}

fn raw(target: Variable<Target>, body: Option<Variable<Body>>, body_value: Option<&str>) -> RawAnnotation {
    RawAnnotation {
        context: "http://www.w3.org/ns/anno.jsonld".to_string(),
        id: "anno0".to_string(),
        type_: "Annotation".to_string(),
        body,
        body_value: body_value.map(str::to_string),
        target,
    }
}

fn resource(selector: Option<Variable<Selector>>) -> Target {
    Target::SpecificResource(SpecificResource {
        id: None,
        type_: None,
        source: Box::new(Target::Iri(iri("index.xhtml"))),
        purpose: None,
        selector,
    })
}

fn fragment_selector(value: &str, conforms_to: Option<&str>) -> Selector {
    Selector::TaggedSelector(TaggedSelector::FragmentSelector(FragmentSelector {
        value: value.to_string(),
        conforms_to: conforms_to.map(iri),
    }))
}

fn cfi_target(value: &str) -> Variable<Target> {
    Variable::One(resource(Some(Variable::One(fragment_selector(value, Some(EPUB_CFI))))))
}

fn text_body(value: &str) -> Body {
    Body::TextualBody(TextualBody { id: None, type_: Some("TextualBody".to_string()), value: value.to_string(), fields: no_fields() })
}

fn shape_of(result: Result<bene_epub::Annotation, Error>) -> Shape {
    match result {
        Err(Error::UnsupportedShape(shape)) => shape,
        other => panic!("expected an unsupported shape, got {:?}", other),
    }
}

#[test]
fn specific_resource_with_conformant_selector_is_accepted() {
    let a = normalize(raw(cfi_target("epubcfi(/6/2[page]!/4/2/2/8,/1:0,/1:10)"), None, None)).unwrap();
    assert_eq!(a.selector.path.components.len(), 8);
    assert_eq!(a.selector.path.components[2], PathComponent::Assertion(bene_epub::cfi::Assertion::Id("page".into())));
    let range = a.selector.range.unwrap();
    assert_eq!(range.to.offset, Some(Offset::Character(10)));
    assert_eq!(a.body, None);
}

#[test]
fn bare_reference_without_a_fragment_is_rejected() {
    let target = Variable::One(Target::Iri(iri("http://example.com/page1")));
    assert_eq!(shape_of(normalize(raw(target, None, None))), Shape::MissingFragment);
}

#[test]
fn bare_reference_with_another_fragment_is_rejected() {
    let target = Variable::One(Target::Iri(iri("http://example.com/image1#xywh=100,100,300,300")));
    match normalize(raw(target, None, None)) {
        Err(Error::Parse(e)) => {
            assert_eq!(e.text, "xywh=100,100,300,300");
            assert_eq!(e.position, 0);
            assert_eq!(e.remaining, "xywh=100,100,300,300");
        }
        other => panic!("expected a parse error, got {:?}", other),
    }
}

#[test]
fn bare_reference_with_a_fragment_identifier_is_read_from_its_fragment() {
    let target = Variable::One(Target::Iri(iri("book.epub#epubcfi(/6/4!/2:3)")));
    let a = normalize(raw(target, None, None)).unwrap();
    assert_eq!(
        a.selector.path.components,
        vec![PathComponent::Step(6), PathComponent::Step(4), PathComponent::Indirection, PathComponent::Step(2)]
    );
    assert_eq!(a.selector.path.offset, Some(Offset::Character(3)));
}

#[test]
fn body_value_becomes_the_body() {
    let a = normalize(raw(cfi_target("epubcfi(/6)"), None, Some("hello"))).unwrap();
    assert_eq!(a.body.as_deref(), Some("hello"));
}

#[test]
fn body_value_is_preferred_to_body() {
    let body = Some(Variable::Many(vec![text_body("one"), text_body("two")]));
    let a = normalize(raw(cfi_target("epubcfi(/6)"), body, Some("hello"))).unwrap();
    assert_eq!(a.body.as_deref(), Some("hello"));
}

#[test]
fn textual_body_gives_its_value() {
    let a = normalize(raw(cfi_target("epubcfi(/6)"), Some(Variable::One(text_body("note"))), None)).unwrap();
    assert_eq!(a.body.as_deref(), Some("note"));
    let a = normalize(raw(cfi_target("epubcfi(/6)"), Some(Variable::Many(vec![text_body("note")])), None)).unwrap();
    assert_eq!(a.body.as_deref(), Some("note"));
}

#[test]
fn two_targets_are_rejected() {
    let one = resource(Some(Variable::One(fragment_selector("epubcfi(/6)", Some(EPUB_CFI)))));
    let two = resource(Some(Variable::One(fragment_selector("epubcfi(/8)", Some(EPUB_CFI)))));
    assert_eq!(shape_of(normalize(raw(Variable::Many(vec![one, two]), None, None))), Shape::TargetCount);
}

#[test]
fn no_target_is_rejected() {
    assert_eq!(shape_of(normalize(raw(Variable::Many(vec![]), None, None))), Shape::TargetCount);
}

#[test]
fn external_target_is_rejected() {
    let target = Target::ExternalWebResource(ExternalWebResource { id: "http://example.org/a.pdf".to_string(), fields: no_fields() });
    assert_eq!(shape_of(normalize(raw(Variable::One(target), None, None))), Shape::ExternalTarget);
}

#[test]
fn selector_count_other_than_one_is_rejected() {
    assert_eq!(shape_of(normalize(raw(Variable::One(resource(None)), None, None))), Shape::SelectorCount);
    let two = Variable::Many(vec![
        fragment_selector("epubcfi(/6)", Some(EPUB_CFI)),
        fragment_selector("epubcfi(/8)", Some(EPUB_CFI)),
    ]);
    assert_eq!(shape_of(normalize(raw(Variable::One(resource(Some(two))), None, None))), Shape::SelectorCount);
}

#[test]
fn other_selector_kinds_are_rejected() {
    let position = TextPositionSelector { start: 1, end: 2 };
    let selectors = vec![
        Selector::Iri(iri("http://example.org/selector")),
        Selector::TaggedSelector(TaggedSelector::CssSelector(CssSelector { value: "#id".to_string() })),
        Selector::TaggedSelector(TaggedSelector::XPathSelector(XPathSelector { value: "/html".to_string() })),
        Selector::TaggedSelector(TaggedSelector::TextQuoteSelector(TextQuoteSelector { exact: "a".to_string(), prefix: None, suffix: None })),
        Selector::TaggedSelector(TaggedSelector::TextPositionSelector(position.clone())),
        Selector::TaggedSelector(TaggedSelector::DataPositionSelector(DataPositionSelector { start: 1, end: 2 })),
        Selector::TaggedSelector(TaggedSelector::SvgSelector(SvgSelector { id: None, value: Some("<svg/>".to_string()) })),
        Selector::TaggedSelector(TaggedSelector::RangeSelector(RangeSelector {
            start_selector: Box::new(fragment_selector("epubcfi(/6)", Some(EPUB_CFI))),
            end_selector: Box::new(fragment_selector("epubcfi(/8)", Some(EPUB_CFI))),
        })),
    ];
    for selector in selectors {
        let target = Variable::One(resource(Some(Variable::One(selector))));
        assert_eq!(shape_of(normalize(raw(target, None, None))), Shape::SelectorKind);
    }
}

#[test]
fn fragment_selector_of_another_conformance_is_rejected() {
    for conforms_to in [None, Some("http://tools.ietf.org/rfc/rfc3236"), Some("http://www.idpf.org/epub/linking/cfi/epub-cfi.htm")] {
        let target = Variable::One(resource(Some(Variable::One(fragment_selector("epubcfi(/6)", conforms_to)))));
        assert_eq!(shape_of(normalize(raw(target, None, None))), Shape::Conformance);
    }
}

#[test]
fn body_count_other_than_one_is_rejected() {
    let two = Some(Variable::Many(vec![text_body("one"), text_body("two")]));
    assert_eq!(shape_of(normalize(raw(cfi_target("epubcfi(/6)"), two, None))), Shape::BodyCount);
    let none = Some(Variable::Many(vec![]));
    assert_eq!(shape_of(normalize(raw(cfi_target("epubcfi(/6)"), none, None))), Shape::BodyCount);
}

#[test]
fn other_body_kinds_are_rejected() {
    let bodies = vec![
        Body::Iri(iri("http://example.org/post1")),
        Body::SpecificResource(SpecificResource { id: None, type_: None, source: Box::new(Target::Iri(iri("a"))), purpose: None, selector: None }),
        Body::Choice(Choice { type_: "Choice".to_string(), items: vec![text_body("a")] }),
        Body::ExternalWebResource(ExternalWebResource { id: "http://example.org/a.mp3".to_string(), fields: no_fields() }),
    ];
    for body in bodies {
        assert_eq!(shape_of(normalize(raw(cfi_target("epubcfi(/6)"), Some(Variable::One(body)), None))), Shape::BodyKind);
    }
}

#[test]
fn selector_that_is_no_fragment_identifier_is_rejected_with_its_text() {
    let text = "epubcfi(/6/2[page]!/4/2/2/8/,/1:0,/1:10)";
    match normalize(raw(cfi_target(text), None, None)) {
        Err(Error::Parse(e)) => {
            assert_eq!(e.text, text);
            assert_eq!(e.position, 27);
            assert_eq!(e.remaining, "/,/1:0,/1:10)");
        }
        other => panic!("expected a parse error, got {:?}", other),
    }
}

#[test]
fn target_is_looked_at_before_body_and_body_before_selector_text() {
    let bad_body = Some(Variable::One(Body::Iri(iri("http://example.org/post1"))));
    let bad_target = Variable::Many(vec![]);
    assert_eq!(shape_of(normalize(raw(bad_target, bad_body, None))), Shape::TargetCount);
    let bad_body = Some(Variable::One(Body::Iri(iri("http://example.org/post1"))));
    assert_eq!(shape_of(normalize(raw(cfi_target("not a cfi"), bad_body, None))), Shape::BodyKind);
}

#[test]
fn batch_keeps_the_order() {
    let batch = vec![
        raw(cfi_target("epubcfi(/2)"), None, Some("a")),
        raw(cfi_target("epubcfi(/4)"), None, None),
        raw(cfi_target("epubcfi(/6)"), Some(Variable::One(text_body("c"))), None),
    ];
    let normal = process(batch).unwrap();
    let steps: Vec<_> = normal.iter().map(|a| a.selector.path.components[0].clone()).collect();
    assert_eq!(steps, vec![PathComponent::Step(2), PathComponent::Step(4), PathComponent::Step(6)]);
    let bodies: Vec<_> = normal.iter().map(|a| a.body.clone()).collect();
    assert_eq!(bodies, vec![Some("a".to_string()), None, Some("c".to_string())]);
}

#[test]
fn empty_batch_gives_an_empty_list() {
    assert_eq!(process(Vec::new()).unwrap().len(), 0);
}

#[test]
fn one_bad_record_fails_the_batch_with_the_first_error() {
    let batch = vec![
        raw(cfi_target("epubcfi(/2)"), None, None),
        raw(Variable::Many(vec![]), None, None),
        raw(cfi_target("nonsense"), None, None),
    ];
    match process(batch) {
        Err(Error::UnsupportedShape(Shape::TargetCount)) => {}
        other => panic!("expected the error of the second record, got {:?}", other.map(|v| v.len())),
    }
}

#[test]
fn into_vec_reads_one_or_many() {
    assert_eq!(Variable::One(7).into_vec(), vec![7]);
    assert_eq!(Variable::Many(vec![1, 2, 3]).into_vec(), vec![1, 2, 3]);
    assert_eq!(Variable::Many(Vec::<u8>::new()).into_vec(), Vec::<u8>::new());
    assert_eq!(Some(Variable::One("a")).into_vec(), vec!["a"]);
    assert_eq!(None::<Variable<u8>>.into_vec(), Vec::<u8>::new());
}

#[test]
fn iri_accepts_references_only() {
    assert!(Iri::new("http://example.org/anno1".to_string()).is_some());
    assert!(Iri::new("index.xhtml".to_string()).is_some());
    assert!(Iri::new(String::new()).is_some());
    assert!(Iri::new("http://exa mple.org/".to_string()).is_none());
    assert!(Iri::new("a#b#c".to_string()).is_none());
    assert!(Iri::new("book.epub#epubcfi(/6[id])".to_string()).is_none());
    assert_eq!(iri("http://example.org/é").as_str(), "http://example.org/é");
}

#[test]
fn iri_fragment_is_what_follows_the_first_hash() {
    assert_eq!(iri("http://example.org/a?q=1#frag").fragment(), Some("frag".to_string()));
    assert_eq!(iri("#").fragment(), Some(String::new()));
    assert_eq!(iri("#é/?").fragment(), Some("é/?".to_string()));
    assert_eq!(iri("http://example.org/a?q=1").fragment(), None);
    assert_eq!(iri("").fragment(), None);
    assert_eq!(iri("a#b").clone().fragment(), Some("b".to_string()));
}
