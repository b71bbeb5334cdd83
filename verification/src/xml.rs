//! XML documents as a stream of events, read with `quick-xml`.

use quick_xml::events::Event;
use quick_xml::Reader;
use vstd::prelude::*;

verus! {

/// `quick_xml::Reader`: a document and how far it has been read.
#[verifier::external_type_specification]
#[verifier::external_body]
#[verifier::reject_recursive_types(R)]
pub struct ExReader<R>(quick_xml::Reader<R>);

/// One event of a document. Names carry their namespace prefix.
#[derive(Debug, PartialEq, Eq)]
pub enum XmlEvent {
    Start(String),
    End(String),
    /// Text between markup, with its line ends normalised.
    Text(String),
    CData(String),
    /// An entity or character reference: the character that a numeric one stands for, and
    /// what was written between `&` and `;`.
    Reference(Option<char>, String),
    /// Markup that carries no text: comments, declarations, self-closing tags.
    Other,
    /// The end of the document.
    Eof,
}

/// What reading a document comes to: events, and a reason where the document is not XML.
pub ghost enum Node {
    Start(Seq<char>),
    End(Seq<char>),
    Text(Seq<char>),
    CData(Seq<char>),
    Reference(Option<char>, Seq<char>),
    Other,
    Eof,
    Invalid(Seq<char>),
}

impl View for XmlEvent {
    type V = Node;

    open spec fn view(&self) -> Node {
        match self {
            XmlEvent::Start(s) => Node::Start(s@),
            XmlEvent::End(s) => Node::End(s@),
            XmlEvent::Text(s) => Node::Text(s@),
            XmlEvent::CData(s) => Node::CData(s@),
            XmlEvent::Reference(c, s) => Node::Reference(*c, s@),
            XmlEvent::Other => Node::Other,
            XmlEvent::Eof => Node::Eof,
        }
    }
}

pub open spec fn outcome(r: Result<XmlEvent, String>) -> Node {
    match r {
        Ok(event) => event@,
        Err(e) => Node::Invalid(e@),
    }
}

/// Nothing is read after these.
pub open spec fn is_final(n: Node) -> bool {
    n is Eof || n is Invalid
}

/// The last node, and only it, is final.
pub open spec fn is_complete(nodes: Seq<Node>) -> bool {
    &&& nodes.len() > 0
    &&& is_final(nodes.last())
    &&& forall|i: int| 0 <= i < nodes.len() - 1 ==> !is_final(#[trigger] nodes[i])
}

/// What reading a document from its start comes to, up to and including its end or the
/// first thing in it that is not XML.
pub uninterp spec fn xml_nodes(document: Seq<char>) -> Seq<Node>;

/// What reading on from where the reader stands comes to, up to and including the end or the
/// first thing that is not XML.
pub uninterp spec fn pending(reader: &Reader<&[u8]>) -> Seq<Node>;

/// `Reader::from_str`: a reader at the start of the document, with the default
/// configuration. The document alone decides what will be read. Every event takes at least
/// one byte of it, so the reading ends, with the end of the document or an error.
#[verifier::external_body]
pub(crate) fn open<'a>(document: &'a str) -> (r: Reader<&'a [u8]>)
    ensures
        pending(&r) == xml_nodes(document@),
        is_complete(pending(&r)),
{
    Reader::from_str(document)
}

/// `Reader::read_event`: gives the next of the pending events, and unless that was the end or
/// an error, leaves the rest of them pending. What a read after the end or an error comes to
/// is left unsaid.
///
/// Each event comes as plain text: the tag name (`name`), the text with line ends normalised
/// (`xml10_content`), the CDATA text as it stands, and for a reference what
/// `resolve_char_ref` makes of it beside its own text. An error comes as its display text.
#[verifier::external_body]
pub(crate) fn next_event<'a>(reader: &mut Reader<&'a [u8]>) -> (r: Result<XmlEvent, String>)
    ensures
        pending(old(reader)).len() > 0 ==> outcome(r) == pending(old(reader))[0],
        pending(old(reader)).len() > 0 && !is_final(pending(old(reader))[0]) ==> pending(
            final(reader),
        ) == pending(old(reader)).skip(1),
{
    Ok(match reader.read_event().map_err(|e| e.to_string())? {
        Event::Start(e) => XmlEvent::Start(e.name().as_ref().to_string()),
        Event::End(e) => XmlEvent::End(e.name().as_ref().to_string()),
        Event::Text(t) => XmlEvent::Text(t.xml10_content().into_owned()),
        Event::CData(t) => XmlEvent::CData(t.into_inner().into_owned()),
        Event::GeneralRef(r) => {
            XmlEvent::Reference(r.resolve_char_ref().ok().flatten(), r.xml10_content().into_owned())
        },
        Event::Eof => XmlEvent::Eof,
        _ => XmlEvent::Other,
    })
}

} // verus!
