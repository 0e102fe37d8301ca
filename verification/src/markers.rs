//! Where embedded objects occur in `word/document.xml`: for each MathType
//! equation or DrawingML image, its paragraph, its offset among the
//! paragraph's visible characters and its relationship id.
use vstd::prelude::*;
use crate::error::{DocxError, DocxFault, DocxResult};
use crate::limits::DocxLimits;
use crate::mathtype::{valid_relationship_id, validate_relationship_id};
use crate::mtef::{invalid_mathtype, mathtype_fault};
use crate::package::DOCUMENT_PART;
use crate::relationships::{invalid_relationships, relationships_fault};
use crate::text::{ascii_lower, ascii_lower_chars, chars_of, has_prefix, same_chars, same_text, starts_with_chars};
use vstd::string::StrSliceExecFns;
use crate::xml_reader::read_part_events;
use crate::xml::{
    NamespaceKind, XmlEvent, XmlEventKind, XmlStream, attribute_value, classify_namespace,
    decode_reference, spec_attribute_value, spec_classify, spec_decode_reference,
    spec_validate_safe_xml, validate_safe_xml,
};

verus! {

/// Most MathType occurrences read from one document.
pub const MAX_MATHTYPE_OCCURRENCES: usize = 512;

/// Most image occurrences read from one document.
pub const MAX_IMAGE_OCCURRENCES: usize = 128;

/// The objects a scan looks for.
#[derive(Clone, Copy, Debug, PartialEq, Eq, Structural)]
pub enum MarkerKind {
    /// Embedded OLE objects (`o:OLEObject`), which must be MathType equations.
    MathType,
    /// DrawingML pictures (`a:blip`).
    Image,
}

/// One object occurrence: its paragraph, its offset among the paragraph's
/// visible characters and its relationship id.
#[derive(Debug)]
pub struct ObjectMarker {
    pub paragraph_index: usize,
    pub text_char_offset: usize,
    pub relationship_id: String,
}

/// The debug form of a string: quoted, with special characters escaped.
pub uninterp spec fn debug_form(text: Seq<char>) -> Seq<char>;

/// The debug form of `text` (`format!("{text:?}")`); the result is named.
#[verifier::external_body]
fn debug_text(text: &str) -> (debug: String)
    ensures
        debug@ == debug_form(text@),
{
    format!("{text:?}")
}

/// What the scan of the document knows after some events.
pub struct MarkerScan {
    /// Visible characters so far in the open paragraph, if one is open.
    pub paragraph_chars: Option<usize>,
    pub paragraph_depth: usize,
    pub next_paragraph_index: usize,
    /// Depth inside deleted or moved-away text.
    pub excluded_depth: usize,
    /// Depth inside field instructions.
    pub instruction_depth: usize,
    /// Depth inside text runs.
    pub text_depth: usize,
    /// Depth inside an OMML equation.
    pub math_depth: usize,
    /// Depth inside text boxes, whose paragraphs are not counted.
    pub text_box_depth: usize,
    pub markers: Vec<ObjectMarker>,
}

/// The content of a [`MarkerScan`].
pub struct ScanState {
    pub chars: Option<int>,
    pub paragraph_depth: int,
    pub next_paragraph_index: int,
    pub excluded_depth: int,
    pub instruction_depth: int,
    pub text_depth: int,
    pub math_depth: int,
    pub text_box_depth: int,
    pub markers: Seq<(int, int, Seq<char>)>,
}

/// An optional count as an integer.
pub open spec fn count_view(count: Option<usize>) -> Option<int> {
    match count {
        Some(c) => Some(c as int),
        None => None,
    }
}

/// A marker as plain values.
pub open spec fn marker_view(marker: ObjectMarker) -> (int, int, Seq<char>) {
    (marker.paragraph_index as int, marker.text_char_offset as int, marker.relationship_id@)
}

impl MarkerScan {
    pub open spec fn view_state(&self) -> ScanState {
        ScanState {
            chars: count_view(self.paragraph_chars),
            paragraph_depth: self.paragraph_depth as int,
            next_paragraph_index: self.next_paragraph_index as int,
            excluded_depth: self.excluded_depth as int,
            instruction_depth: self.instruction_depth as int,
            text_depth: self.text_depth as int,
            math_depth: self.math_depth as int,
            text_box_depth: self.text_box_depth as int,
            markers: self.markers@.map_values(|m: ObjectMarker| marker_view(m)),
        }
    }

    /// Every counter is at most `n`, the number of events read.
    pub open spec fn bounded(&self, n: int) -> bool {
        &&& self.paragraph_depth <= n
        &&& self.next_paragraph_index <= n
        &&& self.excluded_depth <= n
        &&& self.instruction_depth <= n
        &&& self.text_depth <= n
        &&& self.math_depth <= n
        &&& self.text_box_depth <= n
    }
}

/// The state before the first event.
pub open spec fn initial_scan() -> ScanState {
    ScanState {
        chars: None,
        paragraph_depth: 0,
        next_paragraph_index: 0,
        excluded_depth: 0,
        instruction_depth: 0,
        text_depth: 0,
        math_depth: 0,
        text_box_depth: 0,
        markers: Seq::empty(),
    }
}

/// `value + more`, saturating at `usize::MAX`.
pub open spec fn sat_add(value: int, more: int) -> int {
    if value + more > usize::MAX {
        usize::MAX as int
    } else {
        value + more
    }
}

/// `value - 1`, saturating at zero.
pub open spec fn sat_dec(value: int) -> int {
    if value > 0 {
        value - 1
    } else {
        0
    }
}

/// The open paragraph's character count advanced by `more`.
pub open spec fn advance(chars: Option<int>, more: int) -> Option<int> {
    match chars {
        Some(c) => Some(sat_add(c, more)),
        None => None,
    }
}

/// An XML error in the main document part.
pub open spec fn document_fault(position: u64, message: Seq<char>) -> DocxFault {
    DocxFault::Xml { part_name: DOCUMENT_PART@, position, message }
}

pub open spec fn msg_nested() -> Seq<char> {
    "nested w:p elements outside text boxes are not supported"@
}

pub open spec fn msg_unmatched() -> Seq<char> {
    "w:p closing tag has no matching opening tag"@
}

/// Whether an element is an OMML equation.
pub open spec fn is_equation(namespace: NamespaceKind, local: Seq<char>) -> bool {
    namespace == NamespaceKind::Math && (local == "oMath"@ || local == "oMathPara"@)
}

/// The scan after an embedded OLE object element: outside deleted text and
/// field instructions, the object must be an embedded MathType equation in
/// a paragraph, and its occurrence is recorded.
pub open spec fn record_object(s: ScanState, e: XmlEvent) -> Result<ScanState, DocxFault> {
    if s.excluded_depth > 0 || s.instruction_depth > 0 {
        Ok(s)
    } else {
        match spec_attribute_value(e, "Type"@, None, DOCUMENT_PART@) {
            Err(f) => Err(f),
            Ok(object_type) => {
                let object_type = match object_type {
                    Some(t) => t,
                    None => Seq::empty(),
                };
                if ascii_lower(object_type) != ascii_lower("Embed"@) {
                    Err(mathtype_fault("linked or non-embedded OLE objects are not allowed"@))
                } else {
                    match spec_attribute_value(e, "ProgID"@, None, DOCUMENT_PART@) {
                        Err(f) => Err(f),
                        Ok(prog_id) => {
                            let prog_id = match prog_id {
                                Some(t) => t,
                                None => Seq::empty(),
                            };
                            if !has_prefix(ascii_lower(prog_id), "equation."@) {
                                Err(
                                    mathtype_fault(
                                        "embedded OLE object "@ + debug_form(prog_id)
                                            + " is not a MathType equation"@,
                                    ),
                                )
                            } else {
                                match spec_attribute_value(
                                    e,
                                    "id"@,
                                    Some(NamespaceKind::OfficeRelationships),
                                    DOCUMENT_PART@,
                                ) {
                                    Err(f) => Err(f),
                                    Ok(None) => Err(mathtype_fault("MathType OLEObject is missing r:id"@)),
                                    Ok(Some(id)) => if !valid_relationship_id(id) {
                                        Err(mathtype_fault("MathType relationship Id is invalid"@))
                                    } else {
                                        match s.chars {
                                            None => Err(
                                                mathtype_fault(
                                                    "MathType OLEObject occurs outside a Word paragraph"@,
                                                ),
                                            ),
                                            Some(c) => if s.markers.len() == MAX_MATHTYPE_OCCURRENCES {
                                                Err(
                                                    DocxFault::LimitExceeded {
                                                        resource: "DOCX MathType occurrences"@,
                                                        limit: MAX_MATHTYPE_OCCURRENCES as u64,
                                                        actual: (MAX_MATHTYPE_OCCURRENCES + 1) as u64,
                                                    },
                                                )
                                            } else {
                                                Ok(
                                                    ScanState {
                                                        chars: Some(sat_add(c, 1)),
                                                        markers: s.markers.push(
                                                            (s.next_paragraph_index, c, id),
                                                        ),
                                                        ..s
                                                    },
                                                )
                                            },
                                        }
                                    },
                                }
                            }
                        },
                    }
                }
            },
        }
    }
}

/// The scan after a DrawingML picture: outside deleted text and field
/// instructions, it must be embedded (not linked) and stand in a paragraph,
/// and its occurrence is recorded; it adds no visible character.
pub open spec fn record_image(s: ScanState, e: XmlEvent) -> Result<ScanState, DocxFault> {
    if s.excluded_depth > 0 || s.instruction_depth > 0 {
        Ok(s)
    } else {
        match spec_attribute_value(e, "link"@, Some(NamespaceKind::OfficeRelationships), DOCUMENT_PART@) {
            Err(f) => Err(f),
            Ok(Some(_)) => Err(relationships_fault("linked/external DrawingML images are not allowed"@)),
            Ok(None) => match spec_attribute_value(
                e,
                "embed"@,
                Some(NamespaceKind::OfficeRelationships),
                DOCUMENT_PART@,
            ) {
                Err(f) => Err(f),
                Ok(None) => Err(relationships_fault("DrawingML a:blip is missing r:embed"@)),
                Ok(Some(id)) => if !valid_relationship_id(id) {
                    Err(relationships_fault("relationship Id is invalid"@))
                } else {
                    match s.chars {
                        None => Err(
                            document_fault(e.position, "DrawingML image occurs outside a Word paragraph"@),
                        ),
                        Some(c) => if s.markers.len() == MAX_IMAGE_OCCURRENCES {
                            Err(
                                DocxFault::LimitExceeded {
                                    resource: "DOCX image occurrences"@,
                                    limit: MAX_IMAGE_OCCURRENCES as u64,
                                    actual: (MAX_IMAGE_OCCURRENCES + 1) as u64,
                                },
                            )
                        } else {
                            Ok(ScanState { markers: s.markers.push((s.next_paragraph_index, c, id)), ..s })
                        },
                    }
                },
            },
        }
    }
}

/// The scan after an object of the kind looked for.
pub open spec fn record_marker(kind: MarkerKind, s: ScanState, e: XmlEvent) -> Result<ScanState, DocxFault> {
    match kind {
        MarkerKind::MathType => record_object(s, e),
        MarkerKind::Image => record_image(s, e),
    }
}

/// Whether an element is an object of the kind looked for.
pub open spec fn is_object(kind: MarkerKind, namespace: NamespaceKind, local: Seq<char>) -> bool {
    match kind {
        MarkerKind::MathType => namespace == NamespaceKind::Office && local == "OLEObject"@,
        MarkerKind::Image => namespace == NamespaceKind::Drawing && local == "blip"@,
    }
}

/// Whether an OMML equation here counts as a visible character: for
/// images always, for MathType objects outside deleted text and field
/// instructions.
pub open spec fn counts_equation(kind: MarkerKind, s: ScanState) -> bool {
    kind == MarkerKind::Image || (s.excluded_depth == 0 && s.instruction_depth == 0)
}

/// The scan after a start tag.
pub open spec fn start_step(kind: MarkerKind, s: ScanState, e: XmlEvent) -> Result<ScanState, DocxFault> {
    let ns = spec_classify(e.namespace);
    let local = e.local@;
    if ns == NamespaceKind::Word && local == "txbxContent"@ {
        Ok(ScanState { text_box_depth: s.text_box_depth + 1, ..s })
    } else if s.text_box_depth > 0 {
        Ok(s)
    } else if s.math_depth > 0 {
        Ok(ScanState { math_depth: s.math_depth + 1, ..s })
    } else if is_equation(ns, local) {
        Ok(
            ScanState {
                chars: if counts_equation(kind, s) {
                    advance(s.chars, 1)
                } else {
                    s.chars
                },
                math_depth: 1,
                ..s
            },
        )
    } else if ns == NamespaceKind::Word {
        if local == "p"@ {
            if s.paragraph_depth != 0 || s.chars is Some {
                Err(document_fault(e.position, msg_nested()))
            } else {
                Ok(ScanState { chars: Some(0), paragraph_depth: 1, ..s })
            }
        } else if local == "del"@ || local == "moveFrom"@ {
            Ok(ScanState { excluded_depth: s.excluded_depth + 1, ..s })
        } else if local == "instrText"@ {
            Ok(ScanState { instruction_depth: s.instruction_depth + 1, ..s })
        } else if local == "t"@ {
            Ok(ScanState { text_depth: s.text_depth + 1, ..s })
        } else {
            Ok(s)
        }
    } else if is_object(kind, ns, local) {
        record_marker(kind, s, e)
    } else {
        Ok(s)
    }
}

/// Whether an empty Word element stands for one visible character.
pub open spec fn is_character_element(local: Seq<char>) -> bool {
    local == "tab"@ || local == "br"@ || local == "cr"@ || local == "noBreakHyphen"@ || local
        == "softHyphen"@
}

/// The scan after an empty element.
pub open spec fn empty_step(kind: MarkerKind, s: ScanState, e: XmlEvent) -> Result<ScanState, DocxFault> {
    let ns = spec_classify(e.namespace);
    let local = e.local@;
    if s.text_box_depth > 0 {
        Ok(s)
    } else if s.math_depth == 0 && is_equation(ns, local) {
        Ok(
            ScanState {
                chars: if counts_equation(kind, s) {
                    advance(s.chars, 1)
                } else {
                    s.chars
                },
                ..s
            },
        )
    } else if s.math_depth == 0 {
        if is_object(kind, ns, local) {
            record_marker(kind, s, e)
        } else if ns == NamespaceKind::Word {
            if local == "p"@ {
                if s.paragraph_depth != 0 || s.chars is Some {
                    Err(document_fault(e.position, msg_nested()))
                } else {
                    Ok(ScanState { next_paragraph_index: s.next_paragraph_index + 1, ..s })
                }
            } else if is_character_element(local) && s.excluded_depth == 0 && s.instruction_depth
                == 0 {
                Ok(ScanState { chars: advance(s.chars, 1), ..s })
            } else {
                Ok(s)
            }
        } else {
            Ok(s)
        }
    } else {
        Ok(s)
    }
}

/// The scan after an end tag.
pub open spec fn end_step(s: ScanState, e: XmlEvent) -> Result<ScanState, DocxFault> {
    let ns = spec_classify(e.namespace);
    let local = e.local@;
    if s.math_depth > 0 {
        Ok(ScanState { math_depth: s.math_depth - 1, ..s })
    } else if s.text_box_depth > 0 {
        if ns == NamespaceKind::Word && local == "txbxContent"@ {
            Ok(ScanState { text_box_depth: s.text_box_depth - 1, ..s })
        } else {
            Ok(s)
        }
    } else if ns == NamespaceKind::Word {
        if local == "t"@ {
            Ok(ScanState { text_depth: sat_dec(s.text_depth), ..s })
        } else if local == "instrText"@ {
            Ok(ScanState { instruction_depth: sat_dec(s.instruction_depth), ..s })
        } else if local == "del"@ || local == "moveFrom"@ {
            Ok(ScanState { excluded_depth: sat_dec(s.excluded_depth), ..s })
        } else if local == "p"@ {
            if s.paragraph_depth == 0 || s.chars is None {
                Err(document_fault(e.position, msg_unmatched()))
            } else {
                Ok(
                    ScanState {
                        chars: None,
                        paragraph_depth: s.paragraph_depth - 1,
                        next_paragraph_index: s.next_paragraph_index + 1,
                        ..s
                    },
                )
            }
        } else {
            Ok(s)
        }
    } else {
        Ok(s)
    }
}

/// Whether text at this point is visible paragraph text.
pub open spec fn counts_text(s: ScanState) -> bool {
    s.math_depth == 0 && s.text_box_depth == 0 && s.text_depth > 0 && s.excluded_depth == 0
        && s.instruction_depth == 0
}

/// The scan after one event that is not the end of the part.
pub open spec fn scan_step(kind: MarkerKind, s: ScanState, e: XmlEvent) -> Result<ScanState, DocxFault> {
    match e.kind {
        XmlEventKind::Start => start_step(kind, s, e),
        XmlEventKind::Empty => empty_step(kind, s, e),
        XmlEventKind::End => end_step(s, e),
        XmlEventKind::Text | XmlEventKind::CData => if counts_text(s) {
            Ok(ScanState { chars: advance(s.chars, e.text@.len() as int), ..s })
        } else {
            Ok(s)
        },
        XmlEventKind::GeneralRef => if counts_text(s) {
            match spec_decode_reference(e, DOCUMENT_PART@, e.position) {
                Err(f) => Err(f),
                Ok(_) => Ok(ScanState { chars: advance(s.chars, 1), ..s }),
            }
        } else {
            Ok(s)
        },
        XmlEventKind::DocType => Err(document_fault(e.position, "DOCTYPE declarations are not allowed"@)),
        _ => Ok(s),
    }
}

/// The markers found once the part ends at `position`, unless a paragraph or
/// text box is still open.
pub open spec fn scan_finish(s: ScanState, position: u64) -> Result<Seq<(int, int, Seq<char>)>, DocxFault> {
    if s.chars is Some || s.paragraph_depth != 0 || s.text_box_depth != 0 {
        Err(document_fault(position, "unterminated w:p element"@))
    } else {
        Ok(s.markers)
    }
}

/// The markers found from event `i` on, from state `s`.
pub open spec fn scan_from(kind: MarkerKind, stream: XmlStream, i: int, s: ScanState) -> Result<
    Seq<(int, int, Seq<char>)>,
    DocxFault,
>
    decreases stream.events@.len() - i,
{
    if i < 0 || i >= stream.events@.len() {
        match stream.read_error {
            Some((position, message)) => Err(document_fault(position, message@)),
            None => scan_finish(s, stream.source_len),
        }
    } else {
        let e = stream.events@[i];
        if e.kind == XmlEventKind::Eof {
            scan_finish(s, e.position)
        } else {
            match scan_step(kind, s, e) {
                Err(f) => Err(f),
                Ok(next) => scan_from(kind, stream, i + 1, next),
            }
        }
    }
}

/// The occurrences of objects of `kind` in `word/document.xml`, after its
/// safety check.
pub open spec fn spec_markers(kind: MarkerKind, stream: XmlStream, limits: DocxLimits) -> Result<
    Seq<(int, int, Seq<char>)>,
    DocxFault,
> {
    match spec_validate_safe_xml(stream, DOCUMENT_PART@, limits) {
        Err(f) => Err(f),
        Ok(_) => scan_from(kind, stream, 0, initial_scan()),
    }
}

/// The open paragraph's character count advanced by `more`.
fn advance_count(count: Option<usize>, more: usize) -> (next: Option<usize>)
    ensures
        count_view(next) == advance(count_view(count), more as int),
{
    match count {
        Some(c) => Some(c.saturating_add(more)),
        None => None,
    }
}

/// Records an embedded OLE object met outside deleted text and field
/// instructions: it must be an embedded MathType equation inside a paragraph.
fn push_mathtype_marker(scan: &mut MarkerScan, event: &XmlEvent) -> (result: DocxResult<()>)
    ensures
        match (result, record_object(old(scan).view_state(), *event)) {
            (Ok(_), Ok(next)) => final(scan).view_state() == next,
            (Err(e), Err(fault)) => e@ == fault,
            _ => false,
        },
{
    if scan.excluded_depth > 0 || scan.instruction_depth > 0 {
        return Ok(());
    }
    let object_type = match attribute_value(event, "Type", None, DOCUMENT_PART) {
        Err(e) => return Err(e),
        Ok(Some(value)) => value,
        Ok(None) => String::new(),
    };
    let lower_type = ascii_lower_chars(chars_of(object_type.as_str()).as_slice());
    let embed = ascii_lower_chars(chars_of("Embed").as_slice());
    if !same_chars(lower_type.as_slice(), embed.as_slice()) {
        return Err(invalid_mathtype("linked or non-embedded OLE objects are not allowed".to_owned()));
    }
    let prog_id = match attribute_value(event, "ProgID", None, DOCUMENT_PART) {
        Err(e) => return Err(e),
        Ok(Some(value)) => value,
        Ok(None) => String::new(),
    };
    let lower_prog_id = ascii_lower_chars(chars_of(prog_id.as_str()).as_slice());
    let equation = chars_of("equation.");
    if !starts_with_chars(lower_prog_id.as_slice(), equation.as_slice()) {
        let mut message = "embedded OLE object ".to_owned();
        let quoted = debug_text(prog_id.as_str());
        message.append(quoted.as_str());
        message.append(" is not a MathType equation");
        return Err(invalid_mathtype(message));
    }
    let relationship_id = match attribute_value(
        event,
        "id",
        Some(NamespaceKind::OfficeRelationships),
        DOCUMENT_PART,
    ) {
        Err(e) => return Err(e),
        Ok(Some(value)) => value,
        Ok(None) => return Err(invalid_mathtype("MathType OLEObject is missing r:id".to_owned())),
    };
    match validate_relationship_id(relationship_id.as_str()) {
        Err(e) => return Err(e),
        Ok(_) => {},
    }
    let chars = match scan.paragraph_chars {
        Some(c) => c,
        None => return Err(
            invalid_mathtype("MathType OLEObject occurs outside a Word paragraph".to_owned()),
        ),
    };
    if scan.markers.len() == MAX_MATHTYPE_OCCURRENCES {
        return Err(
            DocxError::LimitExceeded {
                resource: "DOCX MathType occurrences".to_owned(),
                limit: MAX_MATHTYPE_OCCURRENCES as u64,
                actual: (MAX_MATHTYPE_OCCURRENCES + 1) as u64,
            },
        );
    }
    let ghost before = scan.markers@;
    let marker = ObjectMarker {
        paragraph_index: scan.next_paragraph_index,
        text_char_offset: chars,
        relationship_id,
    };
    scan.markers.push(marker);
    scan.paragraph_chars = Some(chars.saturating_add(1));
    proof {
        assert(scan.markers@.map_values(|m: ObjectMarker| marker_view(m)) =~= before.map_values(
            |m: ObjectMarker| marker_view(m),
        ).push(marker_view(marker)));
    }
    Ok(())
}

/// Records a DrawingML picture met outside deleted text and field
/// instructions: it must be embedded and stand inside a paragraph.
fn push_image_marker(scan: &mut MarkerScan, event: &XmlEvent) -> (result: DocxResult<()>)
    ensures
        match (result, record_image(old(scan).view_state(), *event)) {
            (Ok(_), Ok(next)) => final(scan).view_state() == next,
            (Err(e), Err(fault)) => e@ == fault,
            _ => false,
        },
{
    if scan.excluded_depth > 0 || scan.instruction_depth > 0 {
        return Ok(());
    }
    match attribute_value(event, "link", Some(NamespaceKind::OfficeRelationships), DOCUMENT_PART) {
        Err(e) => return Err(e),
        Ok(Some(_)) => return Err(invalid_relationships("linked/external DrawingML images are not allowed")),
        Ok(None) => {},
    }
    let relationship_id = match attribute_value(
        event,
        "embed",
        Some(NamespaceKind::OfficeRelationships),
        DOCUMENT_PART,
    ) {
        Err(e) => return Err(e),
        Ok(Some(value)) => value,
        Ok(None) => return Err(invalid_relationships("DrawingML a:blip is missing r:embed")),
    };
    if validate_relationship_id(relationship_id.as_str()).is_err() {
        return Err(invalid_relationships("relationship Id is invalid"));
    }
    let chars = match scan.paragraph_chars {
        Some(c) => c,
        None => return Err(
            DocxError::xml(DOCUMENT_PART, event.position, "DrawingML image occurs outside a Word paragraph"),
        ),
    };
    if scan.markers.len() == MAX_IMAGE_OCCURRENCES {
        return Err(
            DocxError::LimitExceeded {
                resource: "DOCX image occurrences".to_owned(),
                limit: MAX_IMAGE_OCCURRENCES as u64,
                actual: (MAX_IMAGE_OCCURRENCES + 1) as u64,
            },
        );
    }
    let ghost before = scan.markers@;
    let marker = ObjectMarker {
        paragraph_index: scan.next_paragraph_index,
        text_char_offset: chars,
        relationship_id,
    };
    scan.markers.push(marker);
    proof {
        assert(scan.markers@.map_values(|m: ObjectMarker| marker_view(m)) =~= before.map_values(
            |m: ObjectMarker| marker_view(m),
        ).push(marker_view(marker)));
    }
    Ok(())
}

/// Records an object of the kind looked for.
fn push_marker(kind: MarkerKind, scan: &mut MarkerScan, event: &XmlEvent) -> (result: DocxResult<()>)
    ensures
        match (result, record_marker(kind, old(scan).view_state(), *event)) {
            (Ok(_), Ok(next)) => final(scan).view_state() == next,
            (Err(e), Err(fault)) => e@ == fault,
            _ => false,
        },
{
    match kind {
        MarkerKind::MathType => push_mathtype_marker(scan, event),
        MarkerKind::Image => push_image_marker(scan, event),
    }
}

/// Whether an element is an object of the kind looked for.
fn is_object_name(kind: MarkerKind, namespace: NamespaceKind, local: &str) -> (found: bool)
    ensures
        found == is_object(kind, namespace, local@),
{
    match kind {
        MarkerKind::MathType => namespace == NamespaceKind::Office && same_text(local, "OLEObject"),
        MarkerKind::Image => namespace == NamespaceKind::Drawing && same_text(local, "blip"),
    }
}

/// Whether `local` names an OMML equation element.
fn is_equation_name(namespace: NamespaceKind, local: &str) -> (found: bool)
    ensures
        found == is_equation(namespace, local@),
{
    namespace == NamespaceKind::Math && (same_text(local, "oMath") || same_text(local, "oMathPara"))
}

/// Takes a start tag into the scan.
fn scan_start(kind: MarkerKind, scan: &mut MarkerScan, event: &XmlEvent, index: usize) -> (result: DocxResult<()>)
    requires
        old(scan).bounded(index as int),
        index < usize::MAX,
    ensures
        match (result, start_step(kind, old(scan).view_state(), *event)) {
            (Ok(_), Ok(next)) => final(scan).view_state() == next && final(scan).bounded(index + 1),
            (Err(e), Err(fault)) => e@ == fault,
            _ => false,
        },
{
    let ns = classify_namespace(&event.namespace);
    let local = event.local.as_str();
    if ns == NamespaceKind::Word && same_text(local, "txbxContent") {
        scan.text_box_depth = scan.text_box_depth + 1;
    } else if scan.text_box_depth > 0 {
    } else if scan.math_depth > 0 {
        scan.math_depth = scan.math_depth + 1;
    } else if is_equation_name(ns, local) {
        if kind == MarkerKind::Image || (scan.excluded_depth == 0 && scan.instruction_depth == 0) {
            scan.paragraph_chars = advance_count(scan.paragraph_chars, 1);
        }
        scan.math_depth = 1;
    } else if ns == NamespaceKind::Word {
        if same_text(local, "p") {
            if scan.paragraph_depth != 0 || scan.paragraph_chars.is_some() {
                return Err(DocxError::xml(DOCUMENT_PART, event.position, "nested w:p elements outside text boxes are not supported"));
            }
            scan.paragraph_chars = Some(0);
            scan.paragraph_depth = 1;
        } else if same_text(local, "del") || same_text(local, "moveFrom") {
            scan.excluded_depth = scan.excluded_depth + 1;
        } else if same_text(local, "instrText") {
            scan.instruction_depth = scan.instruction_depth + 1;
        } else if same_text(local, "t") {
            scan.text_depth = scan.text_depth + 1;
        }
    } else if is_object_name(kind, ns, local) {
        return push_marker(kind, scan, event);
    }
    Ok(())
}

/// Whether an empty Word element named `local` stands for one visible character.
fn is_character_name(local: &str) -> (found: bool)
    ensures
        found == is_character_element(local@),
{
    same_text(local, "tab") || same_text(local, "br") || same_text(local, "cr") || same_text(
        local,
        "noBreakHyphen",
    ) || same_text(local, "softHyphen")
}

/// Takes an empty element into the scan.
fn scan_empty(kind: MarkerKind, scan: &mut MarkerScan, event: &XmlEvent, index: usize) -> (result: DocxResult<()>)
    requires
        old(scan).bounded(index as int),
        index < usize::MAX,
    ensures
        match (result, empty_step(kind, old(scan).view_state(), *event)) {
            (Ok(_), Ok(next)) => final(scan).view_state() == next && final(scan).bounded(index + 1),
            (Err(e), Err(fault)) => e@ == fault,
            _ => false,
        },
{
    let ns = classify_namespace(&event.namespace);
    let local = event.local.as_str();
    if scan.text_box_depth > 0 {
    } else if scan.math_depth == 0 && is_equation_name(ns, local) {
        if kind == MarkerKind::Image || (scan.excluded_depth == 0 && scan.instruction_depth == 0) {
            scan.paragraph_chars = advance_count(scan.paragraph_chars, 1);
        }
    } else if scan.math_depth == 0 {
        if is_object_name(kind, ns, local) {
            return push_marker(kind, scan, event);
        } else if ns == NamespaceKind::Word {
            if same_text(local, "p") {
                if scan.paragraph_depth != 0 || scan.paragraph_chars.is_some() {
                    return Err(DocxError::xml(DOCUMENT_PART, event.position, "nested w:p elements outside text boxes are not supported"));
                }
                scan.next_paragraph_index = scan.next_paragraph_index + 1;
            } else if is_character_name(local) && scan.excluded_depth == 0
                && scan.instruction_depth == 0 {
                scan.paragraph_chars = advance_count(scan.paragraph_chars, 1);
            }
        }
    }
    Ok(())
}

/// Takes an end tag into the scan.
fn scan_end(scan: &mut MarkerScan, event: &XmlEvent, index: usize) -> (result: DocxResult<()>)
    requires
        old(scan).bounded(index as int),
        index < usize::MAX,
    ensures
        match (result, end_step(old(scan).view_state(), *event)) {
            (Ok(_), Ok(next)) => final(scan).view_state() == next && final(scan).bounded(index + 1),
            (Err(e), Err(fault)) => e@ == fault,
            _ => false,
        },
{
    let ns = classify_namespace(&event.namespace);
    let local = event.local.as_str();
    if scan.math_depth > 0 {
        scan.math_depth = scan.math_depth - 1;
    } else if scan.text_box_depth > 0 {
        if ns == NamespaceKind::Word && same_text(local, "txbxContent") {
            scan.text_box_depth = scan.text_box_depth - 1;
        }
    } else if ns == NamespaceKind::Word {
        if same_text(local, "t") {
            scan.text_depth = scan.text_depth.saturating_sub(1);
        } else if same_text(local, "instrText") {
            scan.instruction_depth = scan.instruction_depth.saturating_sub(1);
        } else if same_text(local, "del") || same_text(local, "moveFrom") {
            scan.excluded_depth = scan.excluded_depth.saturating_sub(1);
        } else if same_text(local, "p") {
            if scan.paragraph_depth == 0 || scan.paragraph_chars.is_none() {
                return Err(DocxError::xml(DOCUMENT_PART, event.position, "w:p closing tag has no matching opening tag"));
            }
            scan.paragraph_chars = None;
            scan.paragraph_depth = scan.paragraph_depth - 1;
            scan.next_paragraph_index = scan.next_paragraph_index + 1;
        }
    }
    Ok(())
}

/// The markers of a finished scan, unless a paragraph or text box is open.
fn finish_scan(scan: MarkerScan, position: u64) -> (result: DocxResult<Vec<ObjectMarker>>)
    ensures
        match (result, scan_finish(scan.view_state(), position)) {
            (Ok(markers), Ok(expected)) => markers@.map_values(|m: ObjectMarker| marker_view(m))
                == expected,
            (Err(e), Err(fault)) => e@ == fault,
            _ => false,
        },
{
    if scan.paragraph_chars.is_some() || scan.paragraph_depth != 0 || scan.text_box_depth != 0 {
        return Err(DocxError::xml(DOCUMENT_PART, position, "unterminated w:p element"));
    }
    Ok(scan.markers)
}

/// Finds the objects of `kind` in `word/document.xml`, given as its reader
/// events: for each, the index of its paragraph, its offset among the
/// paragraph's visible characters and its relationship id. Text in deleted
/// or moved-away runs, in field instructions and in text boxes is not
/// counted; an OMML equation counts as one character. The part is first
/// held to the safety check of [`validate_safe_xml`].
pub fn scan_markers(kind: MarkerKind, stream: &XmlStream, limits: &DocxLimits) -> (result: DocxResult<
    Vec<ObjectMarker>,
>)
    ensures
        match (result, spec_markers(kind, *stream, *limits)) {
            (Ok(markers), Ok(expected)) => markers@.map_values(|m: ObjectMarker| marker_view(m))
                == expected,
            (Err(e), Err(fault)) => e@ == fault,
            _ => false,
        },
{
    match validate_safe_xml(stream, DOCUMENT_PART, limits) {
        Err(e) => return Err(e),
        Ok(_) => {},
    }
    let mut scan = MarkerScan {
        paragraph_chars: None,
        paragraph_depth: 0,
        next_paragraph_index: 0,
        excluded_depth: 0,
        instruction_depth: 0,
        text_depth: 0,
        math_depth: 0,
        text_box_depth: 0,
        markers: Vec::new(),
    };
    assert(scan.view_state().markers =~= Seq::<(int, int, Seq<char>)>::empty());
    assert(scan.view_state() == initial_scan());
    let events = stream.events.as_slice();
    let mut i: usize = 0;
    while i < events.len()
        invariant
            i <= events@.len(),
            events@ == stream.events@,
            scan.bounded(i as int),
            spec_validate_safe_xml(*stream, DOCUMENT_PART@, *limits) is Ok,
            scan_from(kind, *stream, 0, initial_scan()) == scan_from(kind, *stream, i as int, scan.view_state()),
        decreases events@.len() - i,
    {
        let event = &events[i];
        match event.kind {
            XmlEventKind::Eof => {
                return finish_scan(scan, event.position);
            },
            XmlEventKind::Start => {
                match scan_start(kind, &mut scan, event, i) {
                    Err(e) => return Err(e),
                    Ok(_) => {},
                }
            },
            XmlEventKind::Empty => {
                match scan_empty(kind, &mut scan, event, i) {
                    Err(e) => return Err(e),
                    Ok(_) => {},
                }
            },
            XmlEventKind::End => {
                match scan_end(&mut scan, event, i) {
                    Err(e) => return Err(e),
                    Ok(_) => {},
                }
            },
            XmlEventKind::Text | XmlEventKind::CData => {
                if scan.math_depth == 0 && scan.text_box_depth == 0 && scan.text_depth > 0
                    && scan.excluded_depth == 0 && scan.instruction_depth == 0 {
                    let count = event.text.as_str().unicode_len();
                    scan.paragraph_chars = advance_count(scan.paragraph_chars, count);
                }
            },
            XmlEventKind::GeneralRef => {
                if scan.math_depth == 0 && scan.text_box_depth == 0 && scan.text_depth > 0
                    && scan.excluded_depth == 0 && scan.instruction_depth == 0 {
                    match decode_reference(event, DOCUMENT_PART, event.position) {
                        Err(e) => return Err(e),
                        Ok(_) => {},
                    }
                    scan.paragraph_chars = advance_count(scan.paragraph_chars, 1);
                }
            },
            XmlEventKind::DocType => {
                return Err(
                    DocxError::xml(DOCUMENT_PART, event.position, "DOCTYPE declarations are not allowed"),
                );
            },
            XmlEventKind::Other => {},
        }
        i = i + 1;
    }
    match &stream.read_error {
        Some((position, message)) => Err(DocxError::xml(DOCUMENT_PART, *position, message.as_str())),
        None => finish_scan(scan, stream.source_len),
    }
}

/// Whether `result` is the outcome `expected`: the same markers, or the
/// same error.
pub open spec fn markers_outcome(
    result: DocxResult<Vec<ObjectMarker>>,
    expected: Result<Seq<(int, int, Seq<char>)>, DocxFault>,
) -> bool {
    match (result, expected) {
        (Ok(markers), Ok(found)) => markers@.map_values(|m: ObjectMarker| marker_view(m)) == found,
        (Err(e), Err(fault)) => e@ == fault,
        _ => false,
    }
}

/// The MathType equations of `word/document.xml`, read from its bytes: the
/// outcome of [`scan_markers`] on the events the XML reader gives for them.
pub fn parse_mathtype_markers(xml: &[u8], limits: &DocxLimits) -> (result: DocxResult<
    Vec<ObjectMarker>,
>)
    ensures
        exists|stream: XmlStream|
            stream.source_len == xml@.len() && markers_outcome(
                result,
                #[trigger] spec_markers(MarkerKind::MathType, stream, *limits),
            ),
{
    let stream = read_part_events(xml, limits.max_xml_part_bytes);
    let result = scan_markers(MarkerKind::MathType, &stream, limits);
    assert(markers_outcome(result, spec_markers(MarkerKind::MathType, stream, *limits)));
    result
}

/// The DrawingML pictures of `word/document.xml`, read from its bytes: the
/// outcome of [`scan_markers`] on the events the XML reader gives for them.
pub fn parse_image_markers(xml: &[u8], limits: &DocxLimits) -> (result: DocxResult<
    Vec<ObjectMarker>,
>)
    ensures
        exists|stream: XmlStream|
            stream.source_len == xml@.len() && markers_outcome(
                result,
                #[trigger] spec_markers(MarkerKind::Image, stream, *limits),
            ),
{
    let stream = read_part_events(xml, limits.max_xml_part_bytes);
    let result = scan_markers(MarkerKind::Image, &stream, limits);
    assert(markers_outcome(result, spec_markers(MarkerKind::Image, stream, *limits)));
    result
}

/// The most occurrences a scan of `kind` records.
pub open spec fn max_occurrences(kind: MarkerKind) -> int {
    match kind {
        MarkerKind::MathType => MAX_MATHTYPE_OCCURRENCES as int,
        MarkerKind::Image => MAX_IMAGE_OCCURRENCES as int,
    }
}

/// Whether `markers` are in document order: by paragraph, then by offset.
pub open spec fn in_document_order(markers: Seq<(int, int, Seq<char>)>) -> bool {
    forall|a: int, b: int|
        0 <= a < b < markers.len() ==> (#[trigger] markers[a]).0 < (#[trigger] markers[b]).0 || (
        markers[a].0 == markers[b].0 && markers[a].1 <= markers[b].1)
}

/// A recorded marker lies before the scan's current position.
pub open spec fn behind(s: ScanState, m: (int, int, Seq<char>)) -> bool {
    m.0 < s.next_paragraph_index || (m.0 == s.next_paragraph_index && (s.chars matches Some(c) && m.1
        <= c))
}

/// What every scan state of `kind` keeps: a bounded number of markers with
/// valid ids, in document order, all behind the current position.
pub open spec fn scan_sound(kind: MarkerKind, s: ScanState) -> bool {
    &&& s.markers.len() <= max_occurrences(kind)
    &&& forall|k: int| 0 <= k < s.markers.len() ==> valid_relationship_id((#[trigger] s.markers[k]).2)
    &&& in_document_order(s.markers)
    &&& forall|k: int| 0 <= k < s.markers.len() ==> behind(s, #[trigger] s.markers[k])
    &&& s.chars matches Some(c) ==> 0 <= c <= usize::MAX
}

/// The scan's position never goes back: the paragraph index never
/// decreases, and within a paragraph the offset never decreases.
pub open spec fn advances(s: ScanState, n: ScanState) -> bool {
    &&& n.next_paragraph_index >= s.next_paragraph_index
    &&& (n.next_paragraph_index == s.next_paragraph_index && s.chars is Some) ==> (n.chars is Some
        && n.chars->0 >= s.chars->0)
}

proof fn lemma_record_advances(kind: MarkerKind, s: ScanState, e: XmlEvent)
    requires
        s.chars matches Some(c) ==> 0 <= c <= usize::MAX,
    ensures
        record_marker(kind, s, e) matches Ok(n) ==> advances(s, n) && (n.chars matches Some(c) ==> 0 <= c <= usize::MAX),
{
    match kind {
        MarkerKind::MathType => {
            if let Ok(n) = record_object(s, e) {
                assert(n.next_paragraph_index == s.next_paragraph_index);
            }
        },
        MarkerKind::Image => {
            if let Ok(n) = record_image(s, e) {
                assert(n.next_paragraph_index == s.next_paragraph_index && n.chars == s.chars);
            }
        },
    }
}

proof fn lemma_step_advances(kind: MarkerKind, s: ScanState, e: XmlEvent)
    requires
        s.chars matches Some(c) ==> 0 <= c <= usize::MAX,
    ensures
        scan_step(kind, s, e) matches Ok(n) ==> advances(s, n) && (n.chars matches Some(c) ==> 0 <= c <= usize::MAX),
{
    lemma_record_advances(kind, s, e);
    match e.kind {
        XmlEventKind::Start => {
            if let Ok(n) = start_step(kind, s, e) {
                assert(advances(s, n));
            }
        },
        XmlEventKind::Empty => {
            if let Ok(n) = empty_step(kind, s, e) {
                assert(advances(s, n));
            }
        },
        XmlEventKind::End => {
            if let Ok(n) = end_step(s, e) {
                assert(advances(s, n));
            }
        },
        _ => {},
    }
}

proof fn lemma_record_sound(kind: MarkerKind, s: ScanState, e: XmlEvent)
    requires
        scan_sound(kind, s),
    ensures
        record_marker(kind, s, e) matches Ok(n) ==> scan_sound(kind, n),
{
    if let Ok(n) = record_marker(kind, s, e) {
        if n.markers.len() > s.markers.len() {
            let m = n.markers.last();
            assert(n.markers == s.markers.push(m));
            assert forall|a: int, b: int| 0 <= a < b < n.markers.len() implies (#[trigger] n.markers[a]).0
                < (#[trigger] n.markers[b]).0 || (n.markers[a].0 == n.markers[b].0 && n.markers[a].1
                <= n.markers[b].1) by {
                if b == s.markers.len() {
                    assert(behind(s, s.markers[a]));
                } else {
                    assert(s.markers[a] == n.markers[a] && s.markers[b] == n.markers[b]);
                }
            }
            assert forall|k: int| 0 <= k < n.markers.len() implies behind(n, #[trigger] n.markers[k]) by {
                if k < s.markers.len() {
                    assert(behind(s, s.markers[k]));
                }
            }
        } else {
            assert(n.markers == s.markers);
        }
    }
}

proof fn lemma_step_sound(kind: MarkerKind, s: ScanState, e: XmlEvent)
    requires
        scan_sound(kind, s),
    ensures
        scan_step(kind, s, e) matches Ok(n) ==> scan_sound(kind, n),
{
    lemma_record_sound(kind, s, e);
    lemma_step_advances(kind, s, e);
    if let Ok(n) = scan_step(kind, s, e) {
        assert(n.markers == s.markers || scan_sound(kind, n));
        if n.markers == s.markers {
            assert forall|k: int| 0 <= k < n.markers.len() implies behind(n, #[trigger] n.markers[k]) by {
                assert(behind(s, s.markers[k]));
            }
        }
    }
}

proof fn lemma_scan_from_sound(kind: MarkerKind, stream: XmlStream, i: int, s: ScanState)
    requires
        scan_sound(kind, s),
    ensures
        scan_from(kind, stream, i, s) matches Ok(markers) ==> markers.len() <= max_occurrences(kind)
            && in_document_order(markers) && forall|k: int|
            0 <= k < markers.len() ==> valid_relationship_id((#[trigger] markers[k]).2),
    decreases stream.events@.len() - i,
{
    if 0 <= i < stream.events@.len() {
        let e = stream.events@[i];
        if e.kind != XmlEventKind::Eof {
            lemma_step_sound(kind, s, e);
            if let Ok(next) = scan_step(kind, s, e) {
                lemma_scan_from_sound(kind, stream, i + 1, next);
            }
        }
    }
}

/// The occurrences a scan returns are at most the limit of their kind, have
/// valid relationship ids, and come in document order: by paragraph, and
/// within a paragraph by offset.
pub proof fn lemma_markers_in_document_order(kind: MarkerKind, stream: XmlStream, limits: DocxLimits)
    ensures
        spec_markers(kind, stream, limits) matches Ok(markers) ==> markers.len() <= max_occurrences(kind)
            && in_document_order(markers) && forall|k: int|
            0 <= k < markers.len() ==> valid_relationship_id((#[trigger] markers[k]).2),
{
    lemma_scan_from_sound(kind, stream, 0, initial_scan());
}

} // verus!
