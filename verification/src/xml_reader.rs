//! Reading an XML part with `quick-xml` into the plain events of
//! [`XmlStream`](crate::xml::XmlStream).
use vstd::prelude::*;
use quick_xml::events::{BytesCData, BytesEnd, BytesRef, BytesStart, BytesText, Event};
use quick_xml::events::attributes::{AttrError, Attribute};
use quick_xml::name::ResolveResult;
use quick_xml::reader::NsReader;
use quick_xml::XmlVersion;
use crate::xml::{ResolvedNamespace, XmlAttribute, XmlEvent, XmlEventKind, XmlStream};

verus! {

/// The namespace-aware XML reader of `quick-xml`.
#[verifier::external_type_specification]
#[verifier::external_body]
#[verifier::reject_recursive_types(R)]
pub struct ExNsReader<R>(NsReader<R>);

/// A start tag or empty element as `quick-xml` reads it.
#[verifier::external_type_specification]
#[verifier::external_body]
pub struct ExBytesStart<'a>(BytesStart<'a>);

/// An end tag as `quick-xml` reads it.
#[verifier::external_type_specification]
#[verifier::external_body]
pub struct ExBytesEnd<'a>(BytesEnd<'a>);

/// Character data as `quick-xml` reads it.
#[verifier::external_type_specification]
#[verifier::external_body]
pub struct ExBytesText<'a>(BytesText<'a>);

/// A CDATA section as `quick-xml` reads it.
#[verifier::external_type_specification]
#[verifier::external_body]
pub struct ExBytesCData<'a>(BytesCData<'a>);

/// A general reference (`&name;` or `&#n;`) as `quick-xml` reads it.
#[verifier::external_type_specification]
#[verifier::external_body]
pub struct ExBytesRef<'a>(BytesRef<'a>);

/// One attribute of an element as `quick-xml` reads it.
#[verifier::external_type_specification]
#[verifier::external_body]
pub struct ExAttribute<'a>(Attribute<'a>);

/// A malformed attribute as `quick-xml` reports it.
#[verifier::external_type_specification]
#[verifier::external_body]
pub struct ExAttrError(AttrError);

/// An event of the reader, told apart by kind.
pub enum RawEvent<'i> {
    Start(BytesStart<'i>),
    Empty(BytesStart<'i>),
    End(BytesEnd<'i>),
    Text(BytesText<'i>),
    CData(BytesCData<'i>),
    GeneralRef(BytesRef<'i>),
    DocType,
    Eof,
    Other,
}

/// A reader over `xml` (`NsReader::from_reader`).
#[verifier::external_body]
fn open_reader<'i>(xml: &'i [u8]) -> NsReader<&'i [u8]> {
    NsReader::from_reader(xml)
}

/// Keeps white space around text (`Config::trim_text(false)`).
#[verifier::external_body]
fn keep_white_space(reader: &mut NsReader<&[u8]>) {
    reader.config_mut().trim_text(false);
}

/// The next event (`NsReader::read_event`), or the reader's error message.
#[verifier::external_body]
fn read_raw_event<'i>(reader: &mut NsReader<&'i [u8]>) -> Result<RawEvent<'i>, String> {
    match reader.read_event() {
        Ok(Event::Start(e)) => Ok(RawEvent::Start(e)),
        Ok(Event::Empty(e)) => Ok(RawEvent::Empty(e)),
        Ok(Event::End(e)) => Ok(RawEvent::End(e)),
        Ok(Event::Text(e)) => Ok(RawEvent::Text(e)),
        Ok(Event::CData(e)) => Ok(RawEvent::CData(e)),
        Ok(Event::GeneralRef(e)) => Ok(RawEvent::GeneralRef(e)),
        Ok(Event::DocType(_)) => Ok(RawEvent::DocType),
        Ok(Event::Eof) => Ok(RawEvent::Eof),
        Ok(_) => Ok(RawEvent::Other),
        Err(error) => Err(format!("{error}")),
    }
}

/// The reader's byte position after the last event (`buffer_position`).
#[verifier::external_body]
fn buffer_position(reader: &NsReader<&[u8]>) -> u64 {
    reader.buffer_position()
}

/// The position the reader gives for its last error (`error_position`).
#[verifier::external_body]
fn error_position(reader: &NsReader<&[u8]>) -> u64 {
    reader.error_position()
}

/// The namespace of an element name in the reader's current scope
/// (`NamespaceResolver::resolve_element`).
#[verifier::external_body]
fn start_namespace(reader: &NsReader<&[u8]>, start: &BytesStart) -> ResolvedNamespace {
    match reader.resolver().resolve_element(start.name()).0 {
        ResolveResult::Bound(uri) => ResolvedNamespace::Bound(uri.0.to_owned()),
        ResolveResult::Unknown(prefix) => ResolvedNamespace::Unknown(prefix),
        ResolveResult::Unbound => ResolvedNamespace::Unbound,
    }
}

/// The namespace of an end tag's name (`NamespaceResolver::resolve_element`).
#[verifier::external_body]
fn end_namespace(reader: &NsReader<&[u8]>, end: &BytesEnd) -> ResolvedNamespace {
    match reader.resolver().resolve_element(end.name()).0 {
        ResolveResult::Bound(uri) => ResolvedNamespace::Bound(uri.0.to_owned()),
        ResolveResult::Unknown(prefix) => ResolvedNamespace::Unknown(prefix),
        ResolveResult::Unbound => ResolvedNamespace::Unbound,
    }
}

/// The local name of an element (`BytesStart::local_name`).
#[verifier::external_body]
fn start_local_name(start: &BytesStart) -> String {
    start.local_name().into_inner().to_owned()
}

/// The local name of an end tag (`BytesEnd::local_name`).
#[verifier::external_body]
fn end_local_name(end: &BytesEnd) -> String {
    end.local_name().into_inner().to_owned()
}

/// The attributes of an element, in order (`BytesStart::attributes`).
#[verifier::external_body]
fn raw_attributes<'a>(start: &'a BytesStart) -> Vec<Result<Attribute<'a>, AttrError>> {
    start.attributes().collect()
}

/// The reader's message for a malformed attribute.
#[verifier::external_body]
fn attribute_error_text(error: &AttrError) -> String {
    format!("{error}")
}

/// The local name of an attribute (`QName::local_name`).
#[verifier::external_body]
fn attribute_local_name(attribute: &Attribute) -> String {
    attribute.key.local_name().into_inner().to_owned()
}

/// The namespace of an attribute name (`NamespaceResolver::resolve_attribute`).
#[verifier::external_body]
fn attribute_namespace(reader: &NsReader<&[u8]>, attribute: &Attribute) -> ResolvedNamespace {
    match reader.resolver().resolve_attribute(attribute.key).0 {
        ResolveResult::Bound(uri) => ResolvedNamespace::Bound(uri.0.to_owned()),
        ResolveResult::Unknown(prefix) => ResolvedNamespace::Unknown(prefix),
        ResolveResult::Unbound => ResolvedNamespace::Unbound,
    }
}

/// The unescaped value of an attribute (`Attribute::normalized_value` for
/// XML 1.0), or the reader's message when an escape is malformed.
#[verifier::external_body]
fn attribute_text(attribute: &Attribute) -> Result<String, String> {
    match attribute.normalized_value(XmlVersion::Implicit1_0) {
        Ok(value) => Ok(value.into_owned()),
        Err(error) => Err(format!("{error}")),
    }
}

/// The content of character data with line ends normalized (`xml10_content`).
#[verifier::external_body]
fn text_content(text: &BytesText) -> String {
    text.xml10_content().into_owned()
}

/// The content of a CDATA section with line ends normalized (`xml10_content`).
#[verifier::external_body]
fn cdata_content(data: &BytesCData) -> String {
    data.xml10_content().into_owned()
}

/// The character a character reference denotes, `None` for a named
/// reference (`BytesRef::resolve_char_ref`), or the reader's message.
#[verifier::external_body]
fn reference_char(reference: &BytesRef) -> Result<Option<char>, String> {
    match reference.resolve_char_ref() {
        Ok(value) => Ok(value),
        Err(error) => Err(format!("{error}")),
    }
}

/// The name inside a general reference.
#[verifier::external_body]
fn reference_name(reference: &BytesRef) -> String {
    reference.to_string()
}

/// The attributes of an element up to its first malformed one, and the
/// reader's message about that one.
fn element_attributes(reader: &NsReader<&[u8]>, start: &BytesStart) -> (Vec<XmlAttribute>, Option<String>) {
    let raw = raw_attributes(start);
    let mut attributes: Vec<XmlAttribute> = Vec::new();
    let mut i: usize = 0;
    while i < raw.len()
        invariant
            i <= raw@.len(),
        decreases raw@.len() - i,
    {
        match &raw[i] {
            Err(error) => {
                return (attributes, Some(attribute_error_text(error)));
            },
            Ok(attribute) => {
                attributes.push(
                    XmlAttribute {
                        local: attribute_local_name(attribute),
                        namespace: attribute_namespace(reader, attribute),
                        value: attribute_text(attribute),
                    },
                );
            },
        }
        i = i + 1;
    }
    (attributes, None)
}

/// An event with no element, text or reference content.
fn bare_event(kind: XmlEventKind, position: u64, error_position: u64) -> (event: XmlEvent)
    ensures
        event.kind == kind,
        event.position == position,
{
    XmlEvent {
        kind,
        namespace: ResolvedNamespace::Unbound,
        local: String::new(),
        attributes: Vec::new(),
        attribute_error: None,
        text: String::new(),
        char_ref: Ok(None),
        ref_name: Ok(String::new()),
        position,
        error_position,
    }
}

/// The plain form of an event the reader has just read.
fn describe_event(reader: &NsReader<&[u8]>, raw: RawEvent) -> (event: XmlEvent)
    ensures
        (raw is Eof) == (event.kind == XmlEventKind::Eof),
{
    let position = buffer_position(reader);
    let error_at = error_position(reader);
    match raw {
        RawEvent::Start(start) => {
            let mut event = bare_event(XmlEventKind::Start, position, error_at);
            let (attributes, attribute_error) = element_attributes(reader, &start);
            event.namespace = start_namespace(reader, &start);
            event.local = start_local_name(&start);
            event.attributes = attributes;
            event.attribute_error = attribute_error;
            event
        },
        RawEvent::Empty(start) => {
            let mut event = bare_event(XmlEventKind::Empty, position, error_at);
            let (attributes, attribute_error) = element_attributes(reader, &start);
            event.namespace = start_namespace(reader, &start);
            event.local = start_local_name(&start);
            event.attributes = attributes;
            event.attribute_error = attribute_error;
            event
        },
        RawEvent::End(end) => {
            let mut event = bare_event(XmlEventKind::End, position, error_at);
            event.namespace = end_namespace(reader, &end);
            event.local = end_local_name(&end);
            event
        },
        RawEvent::Text(text) => {
            let mut event = bare_event(XmlEventKind::Text, position, error_at);
            event.text = text_content(&text);
            event
        },
        RawEvent::CData(data) => {
            let mut event = bare_event(XmlEventKind::CData, position, error_at);
            event.text = cdata_content(&data);
            event
        },
        RawEvent::GeneralRef(reference) => {
            let mut event = bare_event(XmlEventKind::GeneralRef, position, error_at);
            event.char_ref = reference_char(&reference);
            event.ref_name = Ok(reference_name(&reference));
            event
        },
        RawEvent::DocType => bare_event(XmlEventKind::DocType, position, error_at),
        RawEvent::Eof => bare_event(XmlEventKind::Eof, position, error_at),
        RawEvent::Other => bare_event(XmlEventKind::Other, position, error_at),
    }
}

/// Reads the events of an XML part with white space kept, up to the end of
/// the part or the reader's first error. Every event but the last consumes
/// at least one byte of the part, so the reading stops within
/// `xml.len() + 1` events; past that count it reports that the reader
/// made no progress.
pub fn read_xml_stream(xml: &[u8]) -> (stream: XmlStream)
    ensures
        stream.source_len == xml@.len(),
{
    let source_len = xml.len() as u64;
    let mut reader = open_reader(xml);
    keep_white_space(&mut reader);
    let mut events: Vec<XmlEvent> = Vec::new();
    while events.len() <= xml.len()
        invariant
            events@.len() <= xml@.len() + 1,
            source_len == xml@.len(),
        decreases xml@.len() + 1 - events@.len(),
    {
        match read_raw_event(&mut reader) {
            Err(message) => {
                let position = error_position(&reader);
                return XmlStream { source_len, events, read_error: Some((position, message)) };
            },
            Ok(raw) => {
                let event = describe_event(&reader, raw);
                let done = event.kind == XmlEventKind::Eof;
                events.push(event);
                if done {
                    return XmlStream { source_len, events, read_error: None };
                }
            },
        }
    }
    let position = buffer_position(&reader);
    XmlStream {
        source_len,
        events,
        read_error: Some((position, "the XML reader made no progress".to_owned())),
    }
}

/// The events of an XML part, read only when the part is within
/// `max_bytes`: a larger part gets no events, since the checks that follow
/// refuse it for its size before looking at them.
pub fn read_part_events(xml: &[u8], max_bytes: u64) -> (stream: XmlStream)
    ensures
        stream.source_len == xml@.len(),
        xml@.len() > max_bytes ==> stream.events@.len() == 0 && stream.read_error is None,
{
    if xml.len() as u64 > max_bytes {
        XmlStream { source_len: xml.len() as u64, events: Vec::new(), read_error: None }
    } else {
        read_xml_stream(xml)
    }
}

} // verus!
