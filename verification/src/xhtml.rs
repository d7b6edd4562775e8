//! The one change that content documents get before they are handed out:
//! a link to the reader's stylesheet, put in front of `</head>`.

use std::io::Cursor;
use quick_xml::events::Event;
use quick_xml::Reader;
use quick_xml::Writer;
use vstd::prelude::*;
use vstd::string::StringExecFns;
use vstd::utf8::encode_utf8;
use crate::text::chars_of;
use crate::error::Error;

verus! {

/// `quick_xml::events::Event`. This library hands events from the reader
/// to the writer and does not look into them.
#[verifier::external_type_specification]
#[verifier::external_body]
pub struct ExEvent<'a>(Event<'a>);

/// `quick_xml::Reader`.
#[verifier::external_type_specification]
#[verifier::external_body]
#[verifier::reject_recursive_types(R)]
pub struct ExReader<R>(Reader<R>);

/// `quick_xml::Writer`.
#[verifier::external_type_specification]
#[verifier::external_body]
#[verifier::reject_recursive_types(W)]
pub struct ExWriter<W>(Writer<W>);

/// The kinds of events that an XML reader gives.
#[derive(Clone, Copy, Debug, PartialEq, Eq)]
pub enum TokenKind {
    Start,
    End,
    Empty,
    Text,
    Comment,
    CData,
    Decl,
    PI,
    DocType,
    Eof,
}

/// An event as plain values: its kind, and the bytes between its
/// delimiters.
pub struct Token {
    pub kind: TokenKind,
    pub content: Seq<u8>,
}

/// What an event stands for: its kind, and the bytes that it holds
/// between its delimiters.
pub uninterp spec fn event_token(event: Event<'_>) -> Token;

/// What `quick_xml` makes of `input`: the events that it reads before it
/// reaches the end or gives up, and whether it reaches the end.
pub uninterp spec fn xml_reading(input: Seq<u8>) -> (Seq<Token>, bool);

/// The events that `quick_xml` reads from `input` before it reaches the
/// end or gives up.
pub open spec fn xml_events(input: Seq<u8>) -> Seq<Token> {
    xml_reading(input).0
}

/// Whether `quick_xml` gives up on `input` rather than reach its end.
pub open spec fn xml_malformed(input: Seq<u8>) -> bool {
    !xml_reading(input).1
}

/// The bytes that a reader was made to read.
pub uninterp spec fn reader_input(reader: Reader<&[u8]>) -> Seq<u8>;

/// How many events a reader has given since it was made.
pub uninterp spec fn reader_position(reader: Reader<&[u8]>) -> nat;

/// The bytes that were written through a writer.
pub uninterp spec fn written(writer: Writer<Cursor<Vec<u8>>>) -> Seq<u8>;

/// Calls `quick_xml::Reader::from_reader`: a reader at the start of
/// `input`.
#[verifier::external_body]
fn xml_reader<'a>(input: &'a [u8]) -> (reader: Reader<&'a [u8]>)
    ensures
        reader_input(reader) == input@,
        reader_position(reader) == 0,
{
    Reader::from_reader(input)
}

/// Calls `quick_xml::Reader::read_event`. While events of the input are
/// left, it gives the next one; after the last it gives `None`, for the
/// end, if the input is well formed, and an error if it is not.
#[verifier::external_body]
fn next_event<'a>(reader: &mut Reader<&'a [u8]>) -> (res: Result<Option<Event<'a>>, String>)
    requires
        reader_position(*old(reader)) <= xml_reading(reader_input(*old(reader))).0.len(),
    ensures
        reader_input(*final(reader)) == reader_input(*old(reader)),
        ({
            let (events, well_formed) = xml_reading(reader_input(*old(reader)));
            let at = reader_position(*old(reader));
            match res {
                Ok(Some(event)) => at < events.len() && event_token(event) == events[at as int]
                    && !(event_token(event).kind is Eof) && reader_position(*final(reader)) == at
                    + 1,
                Ok(None) => at == events.len() && well_formed,
                Err(_) => at == events.len() && !well_formed,
            }
        }),
{
    match reader.read_event() {
        Ok(Event::Eof) => Ok(None),
        Ok(event) => Ok(Some(event)),
        Err(e) => Err(e.to_string()),
    }
}

/// The position of the first `:` at or behind `at`, or the length of
/// `name` if there is none.
pub open spec fn first_colon(name: Seq<u8>, at: int) -> int
    decreases name.len() - at,
{
    if 0 <= at < name.len() && name[at] != ':' as u8 {
        first_colon(name, at + 1)
    } else {
        at
    }
}

/// The local part of a qualified name: what follows its first `:`, or
/// the whole name if it has none.
pub open spec fn local_part(name: Seq<u8>) -> Seq<u8> {
    let colon = first_colon(name, 0);
    if colon < name.len() {
        name.skip(colon + 1)
    } else {
        name
    }
}

/// Calls `quick_xml::events::BytesEnd::local_name` on an `End` event, and
/// gives `None` for an event of another kind. The local name is the local
/// part of the content of the event.
#[verifier::external_body]
fn closing_name(event: &Event<'_>) -> (res: Option<Vec<u8>>)
    ensures
        res is Some <==> event_token(*event).kind is End,
        res matches Some(name) ==> name@ == local_part(event_token(*event).content),
{
    match event {
        Event::End(end) => Some(end.local_name().as_ref().to_vec()),
        _ => None,
    }
}

/// The bytes that stand before the content of an event of this kind.
pub open spec fn opening(kind: TokenKind) -> Seq<u8> {
    match kind {
        TokenKind::Start => seq!['<' as u8],
        TokenKind::End => seq!['<' as u8, '/' as u8],
        TokenKind::Empty => seq!['<' as u8],
        TokenKind::Text => seq![],
        TokenKind::Comment => seq!['<' as u8, '!' as u8, '-' as u8, '-' as u8],
        TokenKind::CData => seq![
            '<' as u8, '!' as u8, '[' as u8, 'C' as u8, 'D' as u8, 'A' as u8, 'T' as u8,
            'A' as u8, '[' as u8,
        ],
        TokenKind::Decl => seq!['<' as u8, '?' as u8],
        TokenKind::PI => seq!['<' as u8, '?' as u8],
        TokenKind::DocType => seq![
            '<' as u8, '!' as u8, 'D' as u8, 'O' as u8, 'C' as u8, 'T' as u8, 'Y' as u8,
            'P' as u8, 'E' as u8, ' ' as u8,
        ],
        TokenKind::Eof => seq![],
    }
}

/// The bytes that stand behind the content of an event of this kind.
pub open spec fn closing(kind: TokenKind) -> Seq<u8> {
    match kind {
        TokenKind::Start => seq!['>' as u8],
        TokenKind::End => seq!['>' as u8],
        TokenKind::Empty => seq!['/' as u8, '>' as u8],
        TokenKind::Text => seq![],
        TokenKind::Comment => seq!['-' as u8, '-' as u8, '>' as u8],
        TokenKind::CData => seq![']' as u8, ']' as u8, '>' as u8],
        TokenKind::Decl => seq!['?' as u8, '>' as u8],
        TokenKind::PI => seq!['?' as u8, '>' as u8],
        TokenKind::DocType => seq!['>' as u8],
        TokenKind::Eof => seq![],
    }
}

/// An event as it is written: its content between the delimiters of its
/// kind. The end of the input is written as nothing.
pub open spec fn markup(token: Token) -> Seq<u8> {
    if token.kind is Eof {
        seq![]
    } else {
        opening(token.kind) + token.content + closing(token.kind)
    }
}

/// Calls `quick_xml::Writer::new` on a cursor over an empty buffer.
#[verifier::external_body]
fn xml_writer() -> (writer: Writer<Cursor<Vec<u8>>>)
    ensures
        written(writer) == Seq::<u8>::empty(),
{
    Writer::new(Cursor::new(Vec::new()))
}

/// Calls `quick_xml::Writer::write_event`. A writer that does not indent
/// writes an event as its content between the delimiters of its kind, and
/// a write to a buffer in memory does not fail.
#[verifier::external_body]
fn write_event(writer: &mut Writer<Cursor<Vec<u8>>>, event: Event<'_>)
    ensures
        written(*final(writer)) == written(*old(writer)) + markup(event_token(event)),
{
    writer.write_event(event).unwrap_or(())
}

/// Calls `quick_xml::Writer::into_inner` and `Cursor::into_inner`: the
/// buffer that was written to.
#[verifier::external_body]
fn into_bytes(writer: Writer<Cursor<Vec<u8>>>) -> (bytes: Vec<u8>)
    ensures
        bytes@ == written(writer),
{
    writer.into_inner().into_inner()
}

/// Whether `c` stands for itself in an attribute value.
pub open spec fn is_plain(c: char) -> bool {
    c != '<' && c != '>' && c != '&' && c != '\'' && c != '"'
}

/// Whether every character of `text` stands for itself in an attribute
/// value.
pub open spec fn plain_text(text: Seq<char>) -> bool {
    forall|i: int| 0 <= i < text.len() ==> is_plain(#[trigger] text[i])
}

/// An attribute as it stands in an element: a space, the key, and the
/// value between double quotes.
pub open spec fn attribute_bytes(key: Seq<char>, value: Seq<char>) -> Seq<u8> {
    seq![' ' as u8] + encode_utf8(key) + seq!['=' as u8, '"' as u8] + encode_utf8(value)
        + seq!['"' as u8]
}

/// Attributes as they stand in an element, one after the other.
pub open spec fn attributes_bytes(attributes: Seq<(&str, &str)>) -> Seq<u8>
    decreases attributes.len(),
{
    if attributes.len() == 0 {
        Seq::empty()
    } else {
        attributes_bytes(attributes.drop_last()) + attribute_bytes(
            attributes.last().0@,
            attributes.last().1@,
        )
    }
}

/// Calls `quick_xml::events::BytesStart::new` and `extend_attributes`:
/// an empty element with this name and these attributes. The name and
/// the keys are written as they stand, and so is a value of plain
/// characters.
#[verifier::external_body]
fn empty_element<'a>(name: &'a str, attributes: &Vec<(&str, &str)>) -> (event: Event<'a>)
    requires
        forall|i: int| 0 <= i < attributes.len() ==> plain_text((#[trigger] attributes[i]).1@),
    ensures
        event_token(event) == (Token {
            kind: TokenKind::Empty,
            content: encode_utf8(name@) + attributes_bytes(attributes@),
        }),
{
    let mut elem = quick_xml::events::BytesStart::new(name);
    elem.extend_attributes(attributes.iter().copied());
    Event::Empty(elem)
}

/// The content of the link element for the stylesheet at `href`.
pub open spec fn link_content(href: Seq<char>) -> Seq<u8> {
    encode_utf8("link"@) + attribute_bytes("rel"@, "stylesheet"@) + attribute_bytes(
        "type"@,
        "text/css"@,
    ) + attribute_bytes("href"@, href)
}

/// Makes the link element for the stylesheet at `href`.
fn css_link_elem(href: &str) -> (event: Event<'static>)
    requires
        plain_text(href@),
    ensures
        event_token(event) == (Token { kind: TokenKind::Empty, content: link_content(href@) }),
{
    let mut attributes: Vec<(&str, &str)> = Vec::new();
    attributes.push(("rel", "stylesheet"));
    attributes.push(("type", "text/css"));
    attributes.push(("href", href));
    proof {
        reveal_strlit("stylesheet");
        reveal_strlit("text/css");
        assert("stylesheet"@ =~= seq!['s', 't', 'y', 'l', 'e', 's', 'h', 'e', 'e', 't']);
        assert("text/css"@ =~= seq!['t', 'e', 'x', 't', '/', 'c', 's', 's']);
        let all = attributes@;
        let two = all.drop_last();
        let one = two.drop_last();
        assert(one.drop_last() =~= Seq::<(&str, &str)>::empty());
        assert(attributes_bytes(one.drop_last()) =~= Seq::<u8>::empty());
        assert(attributes_bytes(one) =~= attribute_bytes("rel"@, "stylesheet"@));
        assert(attributes_bytes(two) =~= attributes_bytes(one) + attribute_bytes(
            "type"@,
            "text/css"@,
        ));
        assert(encode_utf8("link"@) + attributes_bytes(all) =~= link_content(href@));
    }
    empty_element("link", &attributes)
}

/// `../`, `n` times.
pub open spec fn up(n: nat) -> Seq<char>
    decreases n,
{
    if n == 0 {
        Seq::empty()
    } else {
        up((n - 1) as nat) + seq!['.', '.', '/']
    }
}

/// How many `/` stand in `path`.
pub open spec fn slashes(path: Seq<char>) -> nat
    decreases path.len(),
{
    if path.len() == 0 {
        0
    } else {
        slashes(path.drop_last()) + if path.last() == '/' {
            1nat
        } else {
            0nat
        }
    }
}

/// The name of the stylesheet.
pub open spec fn stylesheet() -> Seq<char> {
    seq!['c', 'o', 'n', 't', 'e', 'n', 't', '.', 'c', 's', 's']
}

/// Where the stylesheet is, seen from the file at `path` of an archive
/// that has the stylesheet at its root: one `../` for each directory on
/// the way to the file, and the name of the stylesheet.
pub open spec fn spec_href(path: Seq<char>) -> Seq<char> {
    up(slashes(path)) + stylesheet()
}

/// Computes where the stylesheet is, seen from the file at `path`.
pub fn stylesheet_href(path: &str) -> (href: String)
    ensures
        href@ == spec_href(path@),
        plain_text(href@),
{
    let chars = chars_of(path);
    let mut href = String::new();
    proof {
        reveal_strlit("../");
        reveal_strlit("content.css");
        assert(chars@.take(0) =~= Seq::<char>::empty());
    }
    let mut i: usize = 0;
    while i < chars.len()
        invariant
            i <= chars.len(),
            href@ == up(slashes(chars@.take(i as int))),
            plain_text(href@),
            "../"@ == seq!['.', '.', '/'],
        decreases chars.len() - i,
    {
        proof {
            assert(chars@.take(i + 1).drop_last() =~= chars@.take(i as int));
        }
        if chars[i] == '/' {
            href.append("../");
        }
        i = i + 1;
    }
    proof {
        assert(chars@.take(chars.len() as int) =~= chars@);
        assert("content.css"@ =~= stylesheet());
    }
    href.append("content.css");
    href
}

/// The local name of the element before whose end the link goes: `head`.
pub open spec fn head() -> Seq<u8> {
    seq!['h' as u8, 'e' as u8, 'a' as u8, 'd' as u8]
}

/// Whether `name` is `head`.
pub fn is_head(name: &Vec<u8>) -> (b: bool)
    ensures
        b == (name@ == head()),
{
    let b = name.len() == 4 && name[0] == 'h' as u8 && name[1] == 'e' as u8 && name[2] == 'a' as u8
        && name[3] == 'd' as u8;
    proof {
        if b {
            assert(name@ =~= head());
        } else if name.len() == 4 {
            assert(head()[0] == 'h' as u8 && head()[1] == 'e' as u8 && head()[2] == 'a' as u8
                && head()[3] == 'd' as u8);
        }
    }
    b
}

/// Whether `token` closes the element `head`, with or without a prefix.
pub open spec fn closes_head(token: Token) -> bool {
    token.kind is End && local_part(token.content) == head()
}

/// The link element for the stylesheet at `href`, as it is written.
pub open spec fn link_markup(href: Seq<char>) -> Seq<u8> {
    markup(Token { kind: TokenKind::Empty, content: link_content(href) })
}

/// The events written one after the other, with `link` in front of each
/// one that closes `head`.
pub open spec fn rewritten(events: Seq<Token>, link: Seq<u8>) -> Seq<u8>
    decreases events.len(),
{
    if events.len() == 0 {
        Seq::empty()
    } else {
        rewritten(events.drop_last(), link) + if closes_head(events.last()) {
            link
        } else {
            Seq::empty()
        } + markup(events.last())
    }
}

/// A document in which nothing closes `head` is written back without
/// any link: what is written does not depend on the link.
pub proof fn law_no_head_no_link(events: Seq<Token>, link: Seq<u8>, other: Seq<u8>)
    requires
        forall|i: int| 0 <= i < events.len() ==> !closes_head(#[trigger] events[i]),
    ensures
        rewritten(events, link) == rewritten(events, other),
    decreases events.len(),
{
    if events.len() > 0 {
        let shorter = events.drop_last();
        assert forall|i: int| 0 <= i < shorter.len() implies !closes_head(
            #[trigger] shorter[i],
        ) by {
            assert(shorter[i] == events[i]);
        }
        law_no_head_no_link(shorter, link, other);
        assert(!closes_head(events[events.len() - 1]));
    }
}

/// Whether `e` says that the document at `path` is not well formed.
pub open spec fn is_malformed_error(e: Error, path: Seq<char>) -> bool {
    e matches Error::Format(p) && p@ == path
}

/// Whether `res` is what rewriting the document `input` with a link to
/// `href` gives, when the document goes by the name `name`.
///
/// A document that is well formed gives its events written back one by
/// one, with the link in front of each `</head>`. A document that is not
/// is an error, `Format` with the name.
pub open spec fn rewrite_outcome(
    input: Seq<u8>,
    href: Seq<char>,
    name: Seq<char>,
    res: Result<Vec<u8>, Error>,
) -> bool {
    if xml_malformed(input) {
        res matches Err(e) && is_malformed_error(e, name)
    } else {
        res matches Ok(out) && out@ == rewritten(xml_events(input), link_markup(href))
    }
}

/// Reads the events of `input` and writes them back, with a link to
/// `href` in front of each `</head>`.
fn link_before_head(name: &str, href: &str, input: &[u8]) -> (res: Result<Vec<u8>, Error>)
    requires
        plain_text(href@),
    ensures
        rewrite_outcome(input@, href@, name@, res),
{
    let mut reader = xml_reader(input);
    let mut writer = xml_writer();
    let ghost events = xml_events(input@);
    let ghost link = link_markup(href@);
    proof {
        assert(events.take(0) =~= Seq::<Token>::empty());
    }
    loop
        invariant
            events == xml_events(input@),
            link == link_markup(href@),
            plain_text(href@),
            reader_input(reader) == input@,
            reader_position(reader) <= events.len(),
            written(writer) == rewritten(events.take(reader_position(reader) as int), link),
        decreases events.len() - reader_position(reader),
    {
        let ghost at = reader_position(reader) as int;
        let event = match next_event(&mut reader) {
            Ok(Some(event)) => event,
            Ok(None) => {
                proof {
                    assert(events.take(at) =~= events);
                }
                return Ok(into_bytes(writer));
            },
            Err(_) => {
                return Err(Error::Format(name.to_owned()));
            },
        };
        proof {
            assert(events.take(at + 1).drop_last() =~= events.take(at));
            assert(events.take(at + 1).last() == event_token(event));
        }
        let closes = match closing_name(&event) {
            Some(local) => is_head(&local),
            None => false,
        };
        if closes {
            write_event(&mut writer, css_link_elem(href));
        }
        write_event(&mut writer, event);
    }
}

/// Rewrites the content document `input`, which stands at `path` in an
/// archive that has the stylesheet at its root: a link to the stylesheet
/// at [`spec_href`] is put in front of each `</head>`, and nothing else is
/// changed.
pub fn process_xhtml(path: &str, input: &[u8]) -> (res: Result<Vec<u8>, Error>)
    ensures
        rewrite_outcome(input@, spec_href(path@), path@, res),
{
    let href = stylesheet_href(path);
    link_before_head(path, href.as_str(), input)
}

} // verus!
