//! Reading the events of an XML text with `quick_xml`, one at a time.
//!
//! The events that a text yields are a function of the text alone; they are
//! named by `xml_events`. A stream remembers, as ghost state, which text it
//! reads and how many of its events it has handed out; its fields are private
//! to this module, so only the two functions below move it.

use vstd::prelude::*;

verus! {

#[verifier::external_type_specification]
#[verifier::external_body]
#[verifier::reject_recursive_types(R)]
pub struct ExXmlReader<R>(quick_xml::Reader<R>);

/// One event of an XML reader, as far as the manifest search looks at it.
#[derive(Debug)]
pub enum XmlEvent {
    /// A start tag `<name ...>`: its local name and, for each attribute, its
    /// local name and raw value, or `None` where the attribute is malformed.
    Start { name: String, attributes: Vec<Option<(String, String)>> },
    /// The end of the document.
    Eof,
    /// The reader failed.
    Failed,
    /// Any other event.
    Other,
}

/// The plain values of an `XmlEvent`.
pub enum XmlEventView {
    Start { name: Seq<char>, attributes: Seq<Option<(Seq<char>, Seq<char>)>> },
    Eof,
    Failed,
    Other,
}

impl View for XmlEvent {
    type V = XmlEventView;

    open spec fn view(&self) -> XmlEventView {
        match self {
            XmlEvent::Start { name, attributes } => XmlEventView::Start {
                name: name@,
                attributes: attributes.deep_view(),
            },
            XmlEvent::Eof => XmlEventView::Eof,
            XmlEvent::Failed => XmlEventView::Failed,
            XmlEvent::Other => XmlEventView::Other,
        }
    }
}

/// Whether an event ends the reading: the end of the document or an error.
pub open spec fn is_last_event(ev: XmlEventView) -> bool {
    ev is Eof || ev is Failed
}

/// The events that `quick_xml::Reader::from_str(text)`, set with
/// `trim_text(true)`, gives through successive `read_event` calls, each
/// converted as `next_xml_event` converts it, up to and including the first
/// end of the document or the first error.
pub uninterp spec fn xml_events(text: Seq<char>) -> Seq<XmlEventView>;

/// A `quick_xml` reader over a text, with the count of events read so far.
pub struct XmlStream<'a> {
    reader: quick_xml::Reader<&'a [u8]>,
    text: Ghost<Seq<char>>,
    read: Ghost<nat>,
}

impl<'a> XmlStream<'a> {
    /// The text the stream reads.
    pub closed spec fn text(&self) -> Seq<char> {
        self.text@
    }

    /// How many events of `xml_events(self.text())` the stream has given.
    pub closed spec fn read(&self) -> nat {
        self.read@
    }
}

/// Starts `quick_xml::Reader::from_str` on `text`, set with
/// `trim_text(true)` so that text made only of white space yields no event.
/// Claimed: the stream is at the first of `xml_events(text)`, of which there
/// is at least one (reading always ends with the end of the document or an
/// error).
#[verifier::external_body]
pub fn open_xml_stream<'a>(text: &'a str) -> (res: XmlStream<'a>)
    ensures
        res.text() == text@,
        res.read() == 0,
        xml_events(res.text()).len() > 0,
{
    let mut reader = quick_xml::Reader::from_str(text);
    reader.config_mut().trim_text(true);
    XmlStream { reader, text: Ghost(text@), read: Ghost(0) }
}

/// Calls `quick_xml::Reader::read_event` once and converts what it returns:
/// a start tag to its local name and its attributes (each by local name and
/// raw value, a malformed one as `None`), the end of input to `Eof`, an error
/// to `Failed`, anything else to `Other`. Claimed: the result is the next of
/// `xml_events` of the stream's text, and it ends that sequence exactly when
/// it is `Eof` or `Failed`.
#[verifier::external_body]
pub fn next_xml_event(stream: &mut XmlStream) -> (res: XmlEvent)
    requires
        old(stream).read() < xml_events(old(stream).text()).len(),
    ensures
        final(stream).text() == old(stream).text(),
        final(stream).read() == old(stream).read() + 1,
        res@ == xml_events(old(stream).text())[old(stream).read() as int],
        is_last_event(res@) <==> final(stream).read() == xml_events(old(stream).text()).len(),
{
    let event = match stream.reader.read_event() {
        Ok(quick_xml::events::Event::Start(e)) => XmlEvent::Start {
            name: e.local_name().as_ref().to_owned(),
            attributes: e.attributes().map(|a| a.ok().map(|a| (a.key.local_name().as_ref().to_owned(), a.value.into_owned()))).collect(),
        },
        Ok(quick_xml::events::Event::Eof) => XmlEvent::Eof,
        Ok(_) => XmlEvent::Other,
        Err(_) => XmlEvent::Failed,
    };
    stream.read = Ghost(stream.read@ + 1);
    event
}

} // verus!
