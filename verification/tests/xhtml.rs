use bene_epub::error::Error;
use bene_epub::xhtml::{is_head, process_xhtml, stylesheet_href};

#[test]
fn xhtml() {
    let input = r#"
<?xml version="1.0" encoding="UTF-8"?>
<!DOCTYPE html>
<html>
  <head>
  </head>
  <body>
  </body>
</html>"#;
    let path = "EPUB/index.xhtml";
    let actual_bytes = process_xhtml(path, input.as_bytes()).unwrap();
    let actual = String::from_utf8(actual_bytes).unwrap();
    let expected = r#"
<?xml version="1.0" encoding="UTF-8"?>
<!DOCTYPE html>
<html>
  <head>
  <link rel="stylesheet" type="text/css" href="../content.css"/></head>
  <body>
  </body>
</html>"#;
    assert_eq!(actual, expected);
}

#[test]
fn href_has_one_step_up_for_each_directory() {
    assert_eq!(stylesheet_href("EPUB/ch1/index.xhtml"), "../../content.css");
    assert_eq!(stylesheet_href("EPUB/index.xhtml"), "../content.css");
    assert_eq!(stylesheet_href("index.xhtml"), "content.css");
    assert_eq!(stylesheet_href(""), "content.css");
    assert_eq!(stylesheet_href("a/b/c/d"), "../../../content.css");
    assert_eq!(stylesheet_href("a//b"), "../../content.css");
}

#[test]
fn link_in_a_nested_document_steps_up_twice() {
    let out = process_xhtml("EPUB/ch1/index.xhtml", br#"<html><head></head><body/></html>"#).unwrap();
    let text = String::from_utf8(out).unwrap();
    assert_eq!(
        text,
        r#"<html><head><link rel="stylesheet" type="text/css" href="../../content.css"/></head><body/></html>"#
    );
    assert_eq!(text.matches("<link").count(), 1);
}

#[test]
fn document_without_head_comes_back_as_it_is() {
    let input = br#"<html><body/></html>"#;
    assert_eq!(process_xhtml("EPUB/index.xhtml", input), Ok(input.to_vec()));
}

#[test]
fn head_is_told_from_other_names() {
    assert!(is_head(&b"head".to_vec()));
    assert!(!is_head(&b"Head".to_vec()));
    assert!(!is_head(&b"header".to_vec()));
    assert!(!is_head(&b"hea".to_vec()));
    assert!(!is_head(&Vec::new()));
}

#[test]
fn link_goes_before_a_prefixed_head_end() {
    let out = process_xhtml("a/b.xhtml", b"<h:html><h:head></h:head ></h:html>").unwrap();
    assert_eq!(
        String::from_utf8(out).unwrap(),
        "<h:html><h:head><link rel=\"stylesheet\" type=\"text/css\" href=\"../content.css\"/></h:head></h:html>"
    );
}

#[test]
fn every_kind_of_event_is_written_back() {
    let input = "<?xml version=\"1.0\"?><!DOCTYPE html><!-- c --><a x=\"1\"><?pi d?><b/>t &amp; u<![CDATA[<raw>]]></a>";
    let out = process_xhtml("a.xhtml", input.as_bytes()).unwrap();
    assert_eq!(String::from_utf8(out).unwrap(), input);
}

#[test]
fn document_without_head_is_unchanged() {
    let input = "<html><body><p>head</p></body></html>";
    let out = process_xhtml("EPUB/a.xhtml", input.as_bytes()).unwrap();
    assert_eq!(String::from_utf8(out).unwrap(), input);
}

#[test]
fn empty_document_gives_nothing() {
    assert_eq!(process_xhtml("a.xhtml", b"").unwrap(), Vec::<u8>::new());
}

#[test]
fn malformed_markup_is_an_error() {
    match process_xhtml("EPUB/a.xhtml", b"<html><head></body></html>") {
        Err(Error::Format(path)) => assert_eq!(path, "EPUB/a.xhtml"),
        other => panic!("expected a format error, got {:?}", other),
    }
    assert!(matches!(
        process_xhtml("a.xhtml", b"<html><head"),
        Err(Error::Format(_))
    ));
}

#[test]
fn link_goes_before_every_head_end() {
    let out = process_xhtml("b.xhtml", b"<a><head/><head></head><x:head>t</x:head></a>").unwrap();
    assert_eq!(
        String::from_utf8(out).unwrap(),
        "<a><head/><head><link rel=\"stylesheet\" type=\"text/css\" href=\"content.css\"/></head><x:head>t<link rel=\"stylesheet\" type=\"text/css\" href=\"content.css\"/></x:head></a>"
    );
}
