use bene_epub::cfi::{Assertion, Fragment, Offset, Path, PathComponent, Range};
use bene_epub::error::Error;

#[test]
fn test_cfi() {
    let cfi = "epubcfi(/6/2[pageref]!/4/2/2/8,/1:0,/1:15)";
    assert_eq!(
        Fragment::parse(cfi).unwrap(),
        Fragment {
            path: Path {
                components: vec![
                    PathComponent::Step(6),
                    PathComponent::Step(2),
                    PathComponent::Assertion(Assertion::Id("pageref".into())),
                    PathComponent::Indirection,
                    PathComponent::Step(4),
                    PathComponent::Step(2),
                    PathComponent::Step(2),
                    PathComponent::Step(8),
                ],
                offset: None
            },
            range: Some(Range {
                from: Path {
                    components: vec![PathComponent::Step(1)],
                    offset: Some(Offset::Character(0))
                },
                to: Path {
                    components: vec![PathComponent::Step(1)],
                    offset: Some(Offset::Character(15))
                }
            })
        }
    );
}

fn stuck_at(text: &str) -> (usize, String) {
    match Fragment::parse(text) {
        Err(Error::Parse(e)) => {
            assert_eq!(e.text, text);
            (e.position, e.remaining)
        }
        other => panic!("expected a parse error, got {:?}", other),
    }
}

#[test]
fn empty_path_is_rejected() {
    assert_eq!(stuck_at("epubcfi()"), (8, ")".to_string()));
}

#[test]
fn three_range_paths_are_rejected() {
    assert_eq!(
        stuck_at("epubcfi(/6,/1:0,/1:15,/1:20)"),
        (21, ",/1:20)".to_string())
    );
}

#[test]
fn one_range_path_is_rejected() {
    assert_eq!(stuck_at("epubcfi(/6,/1:0)"), (10, ",/1:0)".to_string()));
}

#[test]
fn trailing_text_is_rejected() {
    assert_eq!(stuck_at("epubcfi(/6)x"), (11, "x".to_string()));
}

#[test]
fn missing_opening_is_rejected() {
    assert_eq!(stuck_at("epubcf(/6)"), (0, "epubcf(/6)".to_string()));
    assert_eq!(stuck_at(""), (0, String::new()));
}

#[test]
fn step_without_digits_ends_the_path() {
    assert_eq!(stuck_at("epubcfi(/6/)"), (10, "/)".to_string()));
    assert_eq!(stuck_at("epubcfi(/)"), (8, "/)".to_string()));
}

#[test]
fn step_beyond_32_bits_is_rejected() {
    assert_eq!(
        Fragment::parse("epubcfi(/4294967295)").unwrap().path.components,
        vec![PathComponent::Step(4294967295)]
    );
    assert_eq!(stuck_at("epubcfi(/4294967296)"), (8, "/4294967296)".to_string()));
    assert_eq!(
        stuck_at("epubcfi(/2/99999999999999999999999)"),
        (10, "/99999999999999999999999)".to_string())
    );
}

#[test]
fn leading_zeros_are_accepted() {
    let f = Fragment::parse("epubcfi(/0006:0000000000000000000015)").unwrap();
    assert_eq!(f.path.components, vec![PathComponent::Step(6)]);
    assert_eq!(f.path.offset, Some(Offset::Character(15)));
    assert_eq!(f.range, None);
}

#[test]
fn offset_without_digits_is_rejected() {
    assert_eq!(stuck_at("epubcfi(/6:)"), (10, ":)".to_string()));
    assert_eq!(stuck_at("epubcfi(/6:4294967296)"), (10, ":4294967296)".to_string()));
}

#[test]
fn assertion_takes_any_safe_characters() {
    let f = Fragment::parse("epubcfi(/2[a b/c!:é])").unwrap();
    assert_eq!(
        f.path.components,
        vec![
            PathComponent::Step(2),
            PathComponent::Assertion(Assertion::Id("a b/c!:é".into()))
        ]
    );
}

#[test]
fn assertion_with_unsafe_or_no_characters_is_rejected() {
    assert_eq!(stuck_at("epubcfi(/2[])"), (10, "[])".to_string()));
    assert_eq!(stuck_at("epubcfi(/2[a=b])"), (10, "[a=b])".to_string()));
    assert_eq!(stuck_at("epubcfi(/2[ab"), (10, "[ab".to_string()));
}

#[test]
fn positions_count_characters() {
    assert_eq!(stuck_at("epubcfi(/2[é]é)"), (13, "é)".to_string()));
}

#[test]
fn assertion_may_come_first_and_offset_may_follow_indirection() {
    let f = Fragment::parse("epubcfi([id]!:3)").unwrap();
    assert_eq!(
        f.path.components,
        vec![
            PathComponent::Assertion(Assertion::Id("id".into())),
            PathComponent::Indirection
        ]
    );
    assert_eq!(f.path.offset, Some(Offset::Character(3)));
}

#[test]
fn canonical_text_parses_back() {
    let fragment = Fragment {
        path: Path {
            components: vec![
                PathComponent::Step(0),
                PathComponent::Assertion(Assertion::Id("a:b c".into())),
                PathComponent::Indirection,
                PathComponent::Step(4294967295),
            ],
            offset: Some(Offset::Character(10)),
        },
        range: Some(Range {
            from: Path { components: vec![PathComponent::Indirection], offset: None },
            to: Path { components: vec![PathComponent::Step(7)], offset: Some(Offset::Character(0)) },
        }),
    };
    let text = "epubcfi(/0[a:b c]!/4294967295:10,!,/7:0)";
    assert_eq!(Fragment::parse(text).unwrap(), fragment);
}

#[test]
fn parsing_is_settled_after_one_round() {
    let loose = Fragment::parse("epubcfi(/006/02:0015)").unwrap();
    let canonical = Fragment::parse("epubcfi(/6/2:15)").unwrap();
    assert_eq!(loose, canonical);
}
