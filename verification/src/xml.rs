//! The XML events the package readers walk, as plain values: element names
//! with their resolved namespaces and attributes, text, references and the
//! byte positions the reader reports.
use vstd::prelude::*;
use crate::error::{DocxError, DocxFault, DocxResult};
use crate::limits::DocxLimits;
use crate::text::{same_text};

verus! {

pub const WML_TRANSITIONAL: &'static str = "http://schemas.openxmlformats.org/wordprocessingml/2006/main";
pub const WML_STRICT: &'static str = "http://purl.oclc.org/ooxml/wordprocessingml/main";
pub const OMML_TRANSITIONAL: &'static str = "http://schemas.openxmlformats.org/officeDocument/2006/math";
pub const OMML_STRICT: &'static str = "http://purl.oclc.org/ooxml/officeDocument/math";
pub const DRAWINGML_TRANSITIONAL: &'static str = "http://schemas.openxmlformats.org/drawingml/2006/main";
pub const DRAWINGML_STRICT: &'static str = "http://purl.oclc.org/ooxml/drawingml/main";
pub const OFFICE_RELATIONSHIPS_TRANSITIONAL: &'static str = "http://schemas.openxmlformats.org/officeDocument/2006/relationships";
pub const OFFICE_RELATIONSHIPS_STRICT: &'static str = "http://purl.oclc.org/ooxml/officeDocument/relationships";
pub const OFFICE_VML_NS: &'static str = "urn:schemas-microsoft-com:office:office";
pub const CONTENT_TYPES_NS: &'static str = "http://schemas.openxmlformats.org/package/2006/content-types";
pub const RELATIONSHIPS_NS: &'static str = "http://schemas.openxmlformats.org/package/2006/relationships";

/// The namespace of a name as the reader resolved it.
#[derive(Clone, Debug)]
pub enum ResolvedNamespace {
    /// Bound to this URI.
    Bound(String),
    /// Written with a prefix that no declaration binds.
    Unknown(String),
    /// Without a prefix and outside any default namespace.
    Unbound,
}

/// The namespaces the readers tell apart.
#[derive(Clone, Copy, Debug, PartialEq, Eq, Structural)]
pub enum NamespaceKind {
    Word,
    Math,
    Drawing,
    Office,
    OfficeRelationships,
    ContentTypes,
    Relationships,
    Other,
    Unbound,
}

/// The kind of namespace `namespace` is.
pub open spec fn spec_classify(namespace: ResolvedNamespace) -> NamespaceKind {
    match namespace {
        ResolvedNamespace::Bound(uri) => {
            let u = uri@;
            if u == WML_TRANSITIONAL@ || u == WML_STRICT@ {
                NamespaceKind::Word
            } else if u == OMML_TRANSITIONAL@ || u == OMML_STRICT@ {
                NamespaceKind::Math
            } else if u == DRAWINGML_TRANSITIONAL@ || u == DRAWINGML_STRICT@ {
                NamespaceKind::Drawing
            } else if u == OFFICE_VML_NS@ {
                NamespaceKind::Office
            } else if u == OFFICE_RELATIONSHIPS_TRANSITIONAL@ || u == OFFICE_RELATIONSHIPS_STRICT@ {
                NamespaceKind::OfficeRelationships
            } else if u == CONTENT_TYPES_NS@ {
                NamespaceKind::ContentTypes
            } else if u == RELATIONSHIPS_NS@ {
                NamespaceKind::Relationships
            } else {
                NamespaceKind::Other
            }
        },
        ResolvedNamespace::Unknown(_) => NamespaceKind::Other,
        ResolvedNamespace::Unbound => NamespaceKind::Unbound,
    }
}

/// The kind of namespace `namespace` is.
pub fn classify_namespace(namespace: &ResolvedNamespace) -> (kind: NamespaceKind)
    ensures
        kind == spec_classify(*namespace),
{
    match namespace {
        ResolvedNamespace::Bound(uri) => {
            let u = uri.as_str();
            if same_text(u, WML_TRANSITIONAL) || same_text(u, WML_STRICT) {
                NamespaceKind::Word
            } else if same_text(u, OMML_TRANSITIONAL) || same_text(u, OMML_STRICT) {
                NamespaceKind::Math
            } else if same_text(u, DRAWINGML_TRANSITIONAL) || same_text(u, DRAWINGML_STRICT) {
                NamespaceKind::Drawing
            } else if same_text(u, OFFICE_VML_NS) {
                NamespaceKind::Office
            } else if same_text(u, OFFICE_RELATIONSHIPS_TRANSITIONAL) || same_text(
                u,
                OFFICE_RELATIONSHIPS_STRICT,
            ) {
                NamespaceKind::OfficeRelationships
            } else if same_text(u, CONTENT_TYPES_NS) {
                NamespaceKind::ContentTypes
            } else if same_text(u, RELATIONSHIPS_NS) {
                NamespaceKind::Relationships
            } else {
                NamespaceKind::Other
            }
        },
        ResolvedNamespace::Unknown(_) => NamespaceKind::Other,
        ResolvedNamespace::Unbound => NamespaceKind::Unbound,
    }
}

/// One attribute of an element: its local name, the namespace of its name
/// and its unescaped value, or the reader's message when unescaping failed.
#[derive(Debug)]
pub struct XmlAttribute {
    pub local: String,
    pub namespace: ResolvedNamespace,
    pub value: Result<String, String>,
}

/// The kinds of event the reader produces.
#[derive(Clone, Copy, Debug, PartialEq, Eq, Structural)]
pub enum XmlEventKind {
    Start,
    Empty,
    End,
    Text,
    CData,
    GeneralRef,
    DocType,
    Eof,
    Other,
}

/// One event of the reader.
#[derive(Debug)]
pub struct XmlEvent {
    pub kind: XmlEventKind,
    /// For `Start`, `Empty` and `End`: the element's namespace.
    pub namespace: ResolvedNamespace,
    /// For `Start`, `Empty` and `End`: the element's local name.
    pub local: String,
    /// For `Start` and `Empty`: the attributes read before any malformed one.
    pub attributes: Vec<XmlAttribute>,
    /// For `Start` and `Empty`: the reader's message about a malformed
    /// attribute after those in `attributes`, if there is one.
    pub attribute_error: Option<String>,
    /// For `Text` and `CData`: the decoded content.
    pub text: String,
    /// For `GeneralRef`: the character a character reference denotes, `None`
    /// for a named reference, or the reader's message when it is malformed.
    pub char_ref: Result<Option<char>, String>,
    /// For `GeneralRef`: the decoded name, or the reader's message.
    pub ref_name: Result<String, String>,
    /// The reader's byte position after the event.
    pub position: u64,
    /// The position the reader reports for its last error.
    pub error_position: u64,
}

/// The events of one XML part, in order, and the reader's error if it stopped
/// before the end of the part.
#[derive(Debug)]
pub struct XmlStream {
    /// The length of the part in bytes.
    pub source_len: u64,
    pub events: Vec<XmlEvent>,
    /// The position and message of a reading error that followed `events`.
    pub read_error: Option<(u64, String)>,
}

/// The first attribute called `local` (in the namespace `expected`, when
/// given): its value, `None` when there is none, or the failure that stops
/// the search.
pub open spec fn attribute_from(
    attributes: Seq<XmlAttribute>,
    attribute_error: Option<String>,
    local: Seq<char>,
    expected: Option<NamespaceKind>,
) -> Result<Option<Seq<char>>, Seq<char>>
    decreases attributes.len(),
{
    if attributes.len() == 0 {
        match attribute_error {
            Some(message) => Err(message@),
            None => Ok(None),
        }
    } else {
        let first = attributes[0];
        let matches = first.local@ == local && match expected {
            Some(kind) => spec_classify(first.namespace) == kind,
            None => true,
        };
        if matches {
            match first.value {
                Ok(value) => Ok(Some(value@)),
                Err(message) => Err(message@),
            }
        } else {
            attribute_from(attributes.subrange(1, attributes.len() as int), attribute_error, local, expected)
        }
    }
}

/// The value of the attribute `local` of an element event, as
/// [`attribute_from`] finds it, with an error reported as an XML error in
/// `part_name` at the reader's error position.
pub open spec fn spec_attribute_value(
    event: XmlEvent,
    local: Seq<char>,
    expected: Option<NamespaceKind>,
    part_name: Seq<char>,
) -> Result<Option<Seq<char>>, DocxFault> {
    match attribute_from(event.attributes@, event.attribute_error, local, expected) {
        Ok(value) => Ok(value),
        Err(message) => Err(DocxFault::Xml { part_name, position: event.error_position, message }),
    }
}

/// The characters of an optional string.
pub open spec fn opt_text(value: Option<String>) -> Option<Seq<char>> {
    match value {
        Some(text) => Some(text@),
        None => None,
    }
}

/// The value of the attribute `local` of an element event.
pub fn attribute_value(
    event: &XmlEvent,
    local: &str,
    expected: Option<NamespaceKind>,
    part_name: &str,
) -> (result: DocxResult<Option<String>>)
    ensures
        match (result, spec_attribute_value(*event, local@, expected, part_name@)) {
            (Ok(value), Ok(expected_value)) => opt_text(value) == expected_value,
            (Err(e), Err(fault)) => e@ == fault,
            _ => false,
        },
{
    let attributes = event.attributes.as_slice();
    assert(attributes@.subrange(0, attributes@.len() as int) =~= event.attributes@);
    let mut i: usize = 0;
    while i < attributes.len()
        invariant
            i <= attributes@.len(),
            attributes@ == event.attributes@,
            attribute_from(event.attributes@, event.attribute_error, local@, expected)
                == attribute_from(
                attributes@.subrange(i as int, attributes@.len() as int),
                event.attribute_error,
                local@,
                expected,
            ),
        decreases attributes@.len() - i,
    {
        let ghost rest = attributes@.subrange(i as int, attributes@.len() as int);
        assert(rest.subrange(1, rest.len() as int) =~= attributes@.subrange(
            i + 1,
            attributes@.len() as int,
        ));
        let attribute = &attributes[i];
        let matches = same_text(attribute.local.as_str(), local) && match expected {
            Some(kind) => classify_namespace(&attribute.namespace) == kind,
            None => true,
        };
        if matches {
            return match &attribute.value {
                Ok(value) => Ok(Some(value.clone())),
                Err(message) => Err(DocxError::xml(part_name, event.error_position, message.as_str())),
            };
        }
        i = i + 1;
    }
    match &event.attribute_error {
        Some(message) => Err(DocxError::xml(part_name, event.error_position, message.as_str())),
        None => Ok(None),
    }
}

/// The character a general reference stands for: a character reference, or
/// one of the five predefined entities; any other entity is refused.
pub open spec fn spec_decode_reference(event: XmlEvent, part_name: Seq<char>, position: u64) -> Result<
    char,
    DocxFault,
> {
    match event.char_ref {
        Err(message) => Err(DocxFault::Xml { part_name, position, message: message@ }),
        Ok(Some(c)) => Ok(c),
        Ok(None) => match event.ref_name {
            Err(message) => Err(DocxFault::Xml { part_name, position, message: message@ }),
            Ok(name) => {
                let n = name@;
                if n == "lt"@ {
                    Ok('<')
                } else if n == "gt"@ {
                    Ok('>')
                } else if n == "amp"@ {
                    Ok('&')
                } else if n == "apos"@ {
                    Ok('\'')
                } else if n == "quot"@ {
                    Ok('"')
                } else {
                    Err(
                        DocxFault::Xml {
                            part_name,
                            position,
                            message: "custom entity '&"@ + n + ";' is not allowed"@,
                        },
                    )
                }
            },
        },
    }
}

/// The character a general reference stands for.
pub fn decode_reference(event: &XmlEvent, part_name: &str, position: u64) -> (result: DocxResult<char>)
    ensures
        match (result, spec_decode_reference(*event, part_name@, position)) {
            (Ok(c), Ok(expected)) => c == expected,
            (Err(e), Err(fault)) => e@ == fault,
            _ => false,
        },
{
    match &event.char_ref {
        Err(message) => Err(DocxError::xml(part_name, position, message.as_str())),
        Ok(Some(c)) => Ok(*c),
        Ok(None) => match &event.ref_name {
            Err(message) => Err(DocxError::xml(part_name, position, message.as_str())),
            Ok(name) => {
                let n = name.as_str();
                if same_text(n, "lt") {
                    Ok('<')
                } else if same_text(n, "gt") {
                    Ok('>')
                } else if same_text(n, "amp") {
                    Ok('&')
                } else if same_text(n, "apos") {
                    Ok('\'')
                } else if same_text(n, "quot") {
                    Ok('"')
                } else {
                    let mut message = "custom entity '&".to_owned();
                    message.append(n);
                    message.append(";' is not allowed");
                    Err(DocxError::xml(part_name, position, message.as_str()))
                }
            },
        },
    }
}

/// The outcome of the safety pass over the events from `i` on, at element
/// depth `depth`: refused for a document type declaration, for nesting deeper
/// than the limit or for a reading error, accepted at the end of the part.
pub open spec fn safe_from(stream: XmlStream, i: int, depth: int, part_name: Seq<char>, limits: DocxLimits) -> Result<
    (),
    DocxFault,
>
    decreases stream.events@.len() - i,
{
    if i < 0 || i >= stream.events@.len() {
        match stream.read_error {
            Some((position, message)) => Err(DocxFault::Xml { part_name, position, message: message@ }),
            None => Ok(()),
        }
    } else {
        let event = stream.events@[i];
        match event.kind {
            XmlEventKind::Start => if depth + 1 > limits.max_xml_depth {
                Err(
                    DocxFault::LimitExceeded {
                        resource: "XML depth in "@ + part_name,
                        limit: limits.max_xml_depth as u64,
                        actual: (depth + 1) as u64,
                    },
                )
            } else {
                safe_from(stream, i + 1, depth + 1, part_name, limits)
            },
            XmlEventKind::End => safe_from(
                stream,
                i + 1,
                if depth > 0 { depth - 1 } else { 0 },
                part_name,
                limits,
            ),
            XmlEventKind::DocType => Err(
                DocxFault::Xml {
                    part_name,
                    position: event.position,
                    message: "DOCTYPE declarations are not allowed"@,
                },
            ),
            XmlEventKind::Eof => Ok(()),
            _ => safe_from(stream, i + 1, depth, part_name, limits),
        }
    }
}

/// The safety check of an XML part: bounded size, then the event pass.
pub open spec fn spec_validate_safe_xml(stream: XmlStream, part_name: Seq<char>, limits: DocxLimits) -> Result<
    (),
    DocxFault,
> {
    if stream.source_len > limits.max_xml_part_bytes {
        Err(
            DocxFault::LimitExceeded {
                resource: part_name,
                limit: limits.max_xml_part_bytes,
                actual: stream.source_len,
            },
        )
    } else {
        safe_from(stream, 0, 0, part_name, limits)
    }
}

/// Checks an XML part for size, document type declarations and nesting.
pub fn validate_safe_xml(stream: &XmlStream, part_name: &str, limits: &DocxLimits) -> (result:
    DocxResult<()>)
    ensures
        match (result, spec_validate_safe_xml(*stream, part_name@, *limits)) {
            (Ok(_), Ok(_)) => true,
            (Err(e), Err(fault)) => e@ == fault,
            _ => false,
        },
{
    if stream.source_len > limits.max_xml_part_bytes {
        return Err(
            DocxError::LimitExceeded {
                resource: part_name.to_owned(),
                limit: limits.max_xml_part_bytes,
                actual: stream.source_len,
            },
        );
    }
    let events = stream.events.as_slice();
    let mut depth: usize = 0;
    let mut i: usize = 0;
    while i < events.len()
        invariant
            i <= events@.len(),
            events@ == stream.events@,
            depth <= i,
            depth <= limits.max_xml_depth,
            spec_validate_safe_xml(*stream, part_name@, *limits) == safe_from(
                *stream,
                i as int,
                depth as int,
                part_name@,
                *limits,
            ),
        decreases events@.len() - i,
    {
        let event = &events[i];
        match event.kind {
            XmlEventKind::Start => {
                depth = depth + 1;
                if depth > limits.max_xml_depth {
                    let mut resource = "XML depth in ".to_owned();
                    resource.append(part_name);
                    return Err(
                        DocxError::LimitExceeded {
                            resource,
                            limit: limits.max_xml_depth as u64,
                            actual: depth as u64,
                        },
                    );
                }
            },
            XmlEventKind::End => {
                if depth > 0 {
                    depth = depth - 1;
                }
            },
            XmlEventKind::DocType => {
                return Err(
                    DocxError::xml(part_name, event.position, "DOCTYPE declarations are not allowed"),
                );
            },
            XmlEventKind::Eof => {
                return Ok(());
            },
            _ => {},
        }
        i = i + 1;
    }
    match &stream.read_error {
        Some((position, message)) => Err(DocxError::xml(part_name, *position, message.as_str())),
        None => Ok(()),
    }
}

} // verus!
