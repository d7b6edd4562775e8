use bene_epub::asset::{has_markup_extension, prepare};
use bene_epub::xhtml::process_xhtml;

#[test]
fn markup_extension_ignores_case() {
    assert!(has_markup_extension("a.xhtml"));
    assert!(has_markup_extension("EPUB/ch1/index.XHTML"));
    assert!(has_markup_extension("a.b.XhTmL"));
    assert!(!has_markup_extension("a.html"));
    assert!(!has_markup_extension("a.xhtml2"));
    assert!(!has_markup_extension("xhtml"));
    assert!(!has_markup_extension(".xhtml"));
    assert!(!has_markup_extension("a.xhtml/b"));
    assert!(has_markup_extension("a.xhtml/"));
    assert!(has_markup_extension("a.xhtml/."));
    assert!(has_markup_extension("a.xhtml//./"));
    assert!(!has_markup_extension("a.xhtml/.."));
    assert!(!has_markup_extension("a.xhtmł"));
    assert!(!has_markup_extension(""));
}

#[test]
fn prepare_rewrites_content_documents_only() {
    let page = b"<html><head/><head></head></html>".to_vec();
    assert_eq!(prepare("a/b.css", page.clone()).unwrap(), page);
    assert_eq!(
        String::from_utf8(prepare("a/b.xhtml", page).unwrap()).unwrap(),
        "<html><head/><head><link rel=\"stylesheet\" type=\"text/css\" href=\"../content.css\"/></head></html>"
    );
    assert_eq!(prepare("a.bin", vec![0xff, 0x00]).unwrap(), vec![0xff, 0x00]);
    assert_eq!(
        String::from_utf8(prepare("b.xhtml", b"<head></head>".to_vec()).unwrap()).unwrap(),
        "<head><link rel=\"stylesheet\" type=\"text/css\" href=\"content.css\"/></head>"
    );
    assert!(prepare("a.xhtml", b"<a></b>".to_vec()).is_err());
}

#[test]
fn prepare_is_process_xhtml_on_content_documents() {
    let page = b"<html><head></head><body>x</body></html>".to_vec();
    for path in ["EPUB/a.xhtml", "EPUB/ch1/b.XHTML", "c.Xhtml"] {
        assert_eq!(prepare(path, page.clone()), process_xhtml(path, &page));
    }
    let broken = b"<html><head></body>".to_vec();
    assert_eq!(prepare("EPUB/a.xhtml", broken.clone()), process_xhtml("EPUB/a.xhtml", &broken));
    assert!(prepare("EPUB/a.xhtml", broken).is_err());
}
