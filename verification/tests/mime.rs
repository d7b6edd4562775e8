use bene_epub::guess_mime_type;
use bene_epub::mime::{extension, mime_type};

fn guess(path: &str) -> String {
    guess_mime_type(path).unwrap()
}

#[test]
fn content_documents_are_served_as_html() {
    assert_eq!(guess("EPUB/ch1.xhtml"), "text/html");
    assert_eq!(guess("xhtml"), "text/html");
    assert_eq!(guess("a.b.xhtml"), "text/html");
}

#[test]
fn known_extensions_get_the_type_of_the_table() {
    assert_eq!(guess("EPUB/style.css"), "text/css");
    assert_eq!(guess("index.html"), "text/html");
    assert_eq!(guess("cover.png"), "image/png");
    assert_eq!(guess("EPUB/package.opf"), "application/oebps-package+xml");
    assert_eq!(guess("a.JSON"), "application/json");
    assert_eq!(guess("video.ts"), "video/vnd.dlna.mpeg-tts");
}

#[test]
fn only_the_suffix_in_small_letters_counts_as_a_content_document() {
    assert_eq!(guess("a.XHTML"), "application/xhtml+xml");
}

#[test]
fn unknown_scripts_are_served_as_javascript() {
    assert_eq!(guess("src/app.tsx"), "text/javascript");
    assert_eq!(guess("tsx"), "text/javascript");
    assert_eq!(guess("ts"), "text/javascript");
}

#[test]
fn anything_else_is_a_stream_of_bytes() {
    assert_eq!(guess("mimetype"), "application/octet-stream");
    assert_eq!(guess("a.unknown-extension"), "application/octet-stream");
    assert_eq!(guess(""), "application/octet-stream");
    assert_eq!(guess("a."), "application/octet-stream");
    assert_eq!(guess("dir.css/file"), "application/octet-stream");
    assert_eq!(guess("dir.css/"), "text/css");
    assert_eq!(guess(".css"), "application/octet-stream");
}

#[test]
fn mime_type_follows_the_guess_it_is_given() {
    assert_eq!(mime_type("a.xhtml", Some("image/png".to_string())), "text/html");
    assert_eq!(mime_type("a.xhtml", None), "text/html");
    assert_eq!(mime_type("a.ts", Some("video/mp2t".to_string())), "video/mp2t");
    assert_eq!(mime_type("a.ts", None), "text/javascript");
    assert_eq!(mime_type("a.tsx", None), "text/javascript");
    assert_eq!(mime_type("a.tsxx", None), "application/octet-stream");
    assert_eq!(mime_type("a.bin", None), "application/octet-stream");
    assert_eq!(mime_type("a.bin", Some("x/y".to_string())), "x/y");
}

#[test]
fn extension_is_what_follows_the_last_dot_of_the_file_name() {
    assert_eq!(extension("a/b.c/d.tar.gz"), Some("gz".to_string()));
    assert_eq!(extension("a/b.c/d"), None);
    assert_eq!(extension(".hidden"), None);
    assert_eq!(extension("a/.hidden"), None);
    assert_eq!(extension(".hidden.txt"), Some("txt".to_string()));
    assert_eq!(extension("a."), Some(String::new()));
    assert_eq!(extension(""), None);
    assert_eq!(extension("a/"), None);
    assert_eq!(extension("a.b/"), Some("b".to_string()));
    assert_eq!(extension("a.xhtml/."), Some("xhtml".to_string()));
    assert_eq!(extension("a.b/.."), None);
    assert_eq!(extension(".."), None);
    assert_eq!(extension("..."), Some(String::new()));
    assert_eq!(extension("."), None);
    assert_eq!(extension("é.ü"), Some("ü".to_string()));
}

const PATHS: [&str; 40] = [
    "", ".", "..", "...", "/", "//", "./", "/.", "a", "a.", ".a", "a.b", "a.b.c", "..a", "a..",
    "a/", "a//", "a/.", "a/./", "a/..", "a/b.c", "a.b/c", "a.b/", "a.b//", "a.b/.", "a.b/./.",
    "a.b/..", "/a.b", "./a.b", "../a.b", "a/.b", "a/.b.c", "a/b./", "a/./b.c", ".a/.", "..a/",
    "a. b/c .d", "é.ü/", "a/b/c/d.tar.gz", "x.xhtml/./",
];

#[test]
fn extension_reads_paths_as_std_does() {
    for path in PATHS {
        let std = std::path::Path::new(path)
            .extension()
            .map(|ext| ext.to_str().unwrap().to_string());
        assert_eq!(extension(path), std, "for {:?}", path);
    }
}

#[test]
fn guess_is_that_of_the_table_for_the_path() {
    for path in PATHS.iter().copied().chain(["a.css", "a.CSS/", "b/c.png/.", "d.opf", "e.ts", "f.tsx/"]) {
        let table = mime_guess::from_path(path).first().map(|mime| mime.to_string());
        let suffix = path.split('.').next_back().unwrap();
        let expected = match (table, suffix) {
            (_, "xhtml") => "text/html".to_string(),
            (Some(mime), _) => mime,
            (None, "tsx") | (None, "ts") => "text/javascript".to_string(),
            _ => "application/octet-stream".to_string(),
        };
        assert_eq!(guess(path), expected, "for {:?}", path);
    }
}
