//! The events of an XML text, one after the other.
use quick_xml::events::Event;
use vstd::prelude::*;

verus! {

/// What comes next in an XML text.
#[derive(Debug)]
pub enum XmlEvent {
    /// A start tag. An attribute that could not be read is absent.
    Start { name: Vec<u8>, attributes: Vec<Option<(Vec<u8>, Vec<u8>)>> },
    /// A tag that is closed at once.
    Empty { name: Vec<u8>, attributes: Vec<Option<(Vec<u8>, Vec<u8>)>> },
    /// Text with its entities replaced, where they could be.
    Text(Option<String>),
    /// An end tag.
    End { name: Vec<u8> },
    /// The end of the text.
    Eof,
    /// The text is not well-formed from here on, for the reason that is given.
    Failed(String),
    /// A comment, a declaration and the like.
    Other,
}

pub enum EventView {
    Start { name: Seq<u8>, attributes: Seq<Option<(Seq<u8>, Seq<u8>)>> },
    Empty { name: Seq<u8>, attributes: Seq<Option<(Seq<u8>, Seq<u8>)>> },
    Text(Option<Seq<char>>),
    End { name: Seq<u8> },
    Eof,
    Failed(Seq<char>),
    Other,
}

pub open spec fn attribute_view(attribute: Option<(Vec<u8>, Vec<u8>)>) -> Option<
    (Seq<u8>, Seq<u8>),
> {
    match attribute {
        Some((key, value)) => Some((key@, value@)),
        None => None,
    }
}

pub open spec fn attributes_view(attributes: Seq<Option<(Vec<u8>, Vec<u8>)>>) -> Seq<
    Option<(Seq<u8>, Seq<u8>)>,
> {
    Seq::new(attributes.len(), |i: int| attribute_view(attributes[i]))
}

impl View for XmlEvent {
    type V = EventView;

    open spec fn view(&self) -> EventView {
        match self {
            XmlEvent::Start { name, attributes } => EventView::Start {
                name: name@,
                attributes: attributes_view(attributes@),
            },
            XmlEvent::Empty { name, attributes } => EventView::Empty {
                name: name@,
                attributes: attributes_view(attributes@),
            },
            XmlEvent::Text(text) => EventView::Text(
                match text {
                    Some(text) => Some(text@),
                    None => None,
                },
            ),
            XmlEvent::End { name } => EventView::End { name: name@ },
            XmlEvent::Eof => EventView::Eof,
            XmlEvent::Failed(words) => EventView::Failed(words@),
            XmlEvent::Other => EventView::Other,
        }
    }
}

impl EventView {
    /// Nothing comes after the end of the text or what is not well-formed.
    pub open spec fn is_last(self) -> bool {
        self is Eof || self is Failed
    }
}

pub open spec fn events_view(events: Seq<XmlEvent>) -> Seq<EventView> {
    Seq::new(events.len(), |i: int| events[i]@)
}

#[verifier::external_type_specification]
#[verifier::external_body]
#[verifier::reject_recursive_types(R)]
pub struct ExReader<R>(quick_xml::Reader<R>);

/// The events that are still to come out of a reader, up to and with the first
/// that nothing comes after.
pub uninterp spec fn pending_events(reader: quick_xml::Reader<&[u8]>) -> Seq<EventView>;

/// The events of an XML text without the white space around its texts, up to and
/// with the first that nothing comes after.
pub uninterp spec fn feed_events(xml: Seq<char>) -> Seq<EventView>;

/// Calls `quick_xml::Reader::from_str` and `trim_text`. Trusted: which events come
/// out of the reader depends on the text alone, and there is at least one.
#[verifier::external_body]
fn open_reader(xml: &str) -> (reader: quick_xml::Reader<&[u8]>)
    ensures
        pending_events(reader) == feed_events(xml@),
        pending_events(reader).len() > 0,
{
    let mut reader = quick_xml::Reader::from_str(xml);
    reader.trim_text(true);
    reader
}

#[verifier::external_type_specification]
#[verifier::external_body]
pub struct ExBytesStart<'a>(quick_xml::events::BytesStart<'a>);

#[verifier::external_type_specification]
#[verifier::external_body]
pub struct ExBytesText<'a>(quick_xml::events::BytesText<'a>);

#[verifier::external_type_specification]
#[verifier::external_body]
pub struct ExBytesEnd<'a>(quick_xml::events::BytesEnd<'a>);

#[verifier::external_type_specification]
#[verifier::external_body]
pub struct ExXmlError(quick_xml::Error);

/// The name in a start tag.
pub uninterp spec fn start_name(tag: quick_xml::events::BytesStart<'static>) -> Seq<u8>;

/// The attributes in a start tag, in their order.
pub uninterp spec fn start_attributes(tag: quick_xml::events::BytesStart<'static>) -> Seq<
    Option<(Seq<u8>, Seq<u8>)>,
>;

/// The text of a piece of character data with its entities replaced.
pub uninterp spec fn unescaped_text(text: quick_xml::events::BytesText<'static>) -> Option<
    Seq<char>,
>;

/// The name in an end tag.
pub uninterp spec fn end_name(tag: quick_xml::events::BytesEnd<'static>) -> Seq<u8>;

/// The words for an error of `quick_xml`.
pub uninterp spec fn xml_error_text(error: quick_xml::Error) -> Seq<char>;

/// An event as it comes out of the reader.
pub enum RawEvent {
    Start(quick_xml::events::BytesStart<'static>),
    Empty(quick_xml::events::BytesStart<'static>),
    Text(quick_xml::events::BytesText<'static>),
    End(quick_xml::events::BytesEnd<'static>),
    Eof,
    Failed(quick_xml::Error),
    Other,
}

impl View for RawEvent {
    type V = EventView;

    open spec fn view(&self) -> EventView {
        match self {
            RawEvent::Start(tag) => EventView::Start {
                name: start_name(*tag),
                attributes: start_attributes(*tag),
            },
            RawEvent::Empty(tag) => EventView::Empty {
                name: start_name(*tag),
                attributes: start_attributes(*tag),
            },
            RawEvent::Text(text) => EventView::Text(unescaped_text(*text)),
            RawEvent::End(tag) => EventView::End { name: end_name(*tag) },
            RawEvent::Eof => EventView::Eof,
            RawEvent::Failed(error) => EventView::Failed(xml_error_text(*error)),
            RawEvent::Other => EventView::Other,
        }
    }
}

/// Calls `quick_xml::Reader::read_event_into`. Trusted: it hands out the first event
/// that is still to come, and that is the last one if and only if it is the end of the
/// text or an error.
#[verifier::external_body]
fn next_raw_event(reader: &mut quick_xml::Reader<&[u8]>) -> (event: RawEvent)
    requires
        pending_events(*old(reader)).len() > 0,
    ensures
        event@ == pending_events(*old(reader))[0],
        pending_events(*final(reader)) == pending_events(*old(reader)).skip(1),
        event@.is_last() == (pending_events(*final(reader)).len() == 0),
{
    match reader.read_event_into(&mut Vec::new()) {
        Ok(Event::Start(tag)) => RawEvent::Start(tag.into_owned()),
        Ok(Event::Empty(tag)) => RawEvent::Empty(tag.into_owned()),
        Ok(Event::Text(text)) => RawEvent::Text(text.into_owned()),
        Ok(Event::End(tag)) => RawEvent::End(tag.into_owned()),
        Ok(Event::Eof) => RawEvent::Eof,
        Ok(_) => RawEvent::Other,
        Err(error) => RawEvent::Failed(error),
    }
}

/// Calls `BytesStart::name`. Trusted: the name depends on the tag alone.
#[verifier::external_body]
fn read_start_name(tag: &quick_xml::events::BytesStart<'static>) -> (name: Vec<u8>)
    ensures
        name@ == start_name(*tag),
{
    tag.name().as_ref().to_vec()
}

/// Calls `BytesStart::attributes`. Trusted: the attributes depend on the tag alone. One
/// that the crate reports as an error is absent.
#[verifier::external_body]
fn read_attributes(tag: &quick_xml::events::BytesStart<'static>) -> (attributes: Vec<
    Option<(Vec<u8>, Vec<u8>)>,
>)
    ensures
        attributes_view(attributes@) == start_attributes(*tag),
{
    tag.attributes()
        .map(|item| item.ok().map(|found| (found.key.as_ref().to_vec(), found.value.into_owned())))
        .collect()
}

/// Calls `BytesText::unescape`. Trusted: whether it succeeds, and the text, depend on
/// the character data alone.
#[verifier::external_body]
fn read_text(text: &quick_xml::events::BytesText<'static>) -> (unescaped: Option<String>)
    ensures
        match unescaped {
            Some(unescaped) => unescaped_text(*text) == Some(unescaped@),
            None => unescaped_text(*text) is None,
        },
{
    text.unescape().ok().map(|unescaped| unescaped.into_owned())
}

/// Calls `BytesEnd::name`. Trusted: the name depends on the tag alone.
#[verifier::external_body]
fn read_end_name(tag: &quick_xml::events::BytesEnd<'static>) -> (name: Vec<u8>)
    ensures
        name@ == end_name(*tag),
{
    tag.name().as_ref().to_vec()
}

/// Calls `to_string` on a `quick_xml::Error`. Trusted: the words depend on the error
/// alone.
#[verifier::external_body]
fn read_xml_error(error: &quick_xml::Error) -> (words: String)
    ensures
        words@ == xml_error_text(*error),
{
    error.to_string()
}

/// What an event of the reader says.
pub fn read_event(raw: &RawEvent) -> (event: XmlEvent)
    ensures
        event@ == raw@,
{
    match raw {
        RawEvent::Start(tag) => XmlEvent::Start {
            name: read_start_name(tag),
            attributes: read_attributes(tag),
        },
        RawEvent::Empty(tag) => XmlEvent::Empty {
            name: read_start_name(tag),
            attributes: read_attributes(tag),
        },
        RawEvent::Text(text) => XmlEvent::Text(read_text(text)),
        RawEvent::End(tag) => XmlEvent::End { name: read_end_name(tag) },
        RawEvent::Eof => XmlEvent::Eof,
        RawEvent::Failed(error) => XmlEvent::Failed(read_xml_error(error)),
        RawEvent::Other => XmlEvent::Other,
    }
}

/// The events of an XML text.
pub fn read_events(xml: &str) -> (events: Vec<XmlEvent>)
    ensures
        events_view(events@) == feed_events(xml@),
{
    let ghost all = feed_events(xml@);
    let mut reader = open_reader(xml);
    let mut events: Vec<XmlEvent> = Vec::new();
    assert(events_view(events@) + pending_events(reader) =~= all);
    loop
        invariant_except_break
            pending_events(reader).len() > 0,
            events_view(events@) + pending_events(reader) == all,
        ensures
            events_view(events@) == all,
        decreases pending_events(reader).len(),
    {
        let ghost before = events@;
        let ghost pending = pending_events(reader);
        let event = read_event(&next_raw_event(&mut reader));
        let last = match event {
            XmlEvent::Eof | XmlEvent::Failed(_) => true,
            _ => false,
        };
        events.push(event);
        proof {
            assert(events_view(events@) =~= events_view(before).push(pending[0]));
            assert(events_view(before) + pending =~= events_view(events@) + pending.skip(1));
        }
        if last {
            assert(events_view(events@) =~= all);
            break;
        }
    }
    events
}

} // verus!
