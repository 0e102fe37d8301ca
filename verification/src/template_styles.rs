//! Reading one paragraph of a template by itself: the paragraph and run
//! properties it lends to a style role, and the floating objects anchored in
//! it that must survive when its text is replaced.
//!
//! A paragraph taken out of its document no longer sees the namespace
//! declarations of the document root; the whole document has already passed
//! the namespace-aware reader, so these readers go by local names.
use vstd::prelude::*;
use crate::document::{doc_fault, msg_positions, positions_fit, positions_within};
use crate::error::{DocxError, DocxFault, DocxResult};
use crate::limits::DocxLimits;
use crate::package::DOCUMENT_PART;
use crate::page_setup::prior_position;
use crate::text::same_text;
use crate::xml::{XmlEvent, XmlEventKind, XmlStream};

use vstd::string::StringSliceAdditionalSpecFns;

verus! {

/// Whether an element of this local name carries a floating object.
pub open spec fn is_floating_name(local: Seq<char>) -> bool {
    local == "drawing"@ || local == "pict"@ || local == "object"@ || local == "AlternateContent"@
}

/// Whether an element of this local name carries a floating object.
pub fn is_floating_object_name(local: &str) -> (floating: bool)
    ensures
        floating == is_floating_name(local@),
{
    same_text(local, "drawing") || same_text(local, "pict") || same_text(local, "object") || same_text(
        local,
        "AlternateContent",
    )
}

/// The bytes of `xml` a span covers, or none.
pub open spec fn span_bytes(xml: Seq<u8>, span: Option<(int, int)>) -> Seq<u8> {
    match span {
        Some((a, b)) => xml.subrange(a, b),
        None => Seq::empty(),
    }
}

/// What the style reading knows after some events: the depth; the
/// paragraph properties and the run properties chosen so far, as byte
/// spans; the open captures (start, depth); the depth of the open
/// `pPr` and run; the properties of the open run; and whether the open run
/// holds a floating object.
pub struct StyleScan {
    pub depth: int,
    pub paragraph_properties: Option<(int, int)>,
    pub run_properties: Option<(int, int)>,
    pub paragraph_capture: Option<(int, int)>,
    pub run_capture: Option<(int, int)>,
    pub properties_depth: Option<int>,
    pub run_depth: Option<int>,
    pub run_candidate: Option<(int, int)>,
    pub run_floating: bool,
}

/// The style reading before the first event.
pub open spec fn initial_style_scan() -> StyleScan {
    StyleScan {
        depth: 0,
        paragraph_properties: None,
        run_properties: None,
        paragraph_capture: None,
        run_capture: None,
        properties_depth: None,
        run_depth: None,
        run_candidate: None,
        run_floating: false,
    }
}

/// The depth error of a style sample.
pub open spec fn style_depth_fault(limits: DocxLimits, depth: int) -> DocxFault {
    DocxFault::LimitExceeded {
        resource: "XML depth in template style sample"@,
        limit: limits.max_xml_depth as u64,
        actual: depth as u64,
    }
}

/// The style reading after the event `e`, which spans bytes `start..end`:
/// the first `pPr` of the paragraph, and the `rPr` of the first run outside
/// paragraph properties that holds no floating object.
pub open spec fn style_step(s: StyleScan, e: XmlEvent, start: int, end: int, limits: DocxLimits) -> Result<
    StyleScan,
    DocxFault,
> {
    let local = e.local@;
    if e.kind == XmlEventKind::Start {
        let d = s.depth + 1;
        if d > limits.max_xml_depth {
            Err(style_depth_fault(limits, d))
        } else {
            let s1 = if local == "pPr"@ && s.paragraph_properties is None && s.paragraph_capture is None {
                StyleScan { paragraph_capture: Some((start, d)), properties_depth: Some(d), depth: d, ..s }
            } else if local == "r"@ && s.run_depth is None {
                StyleScan { run_depth: Some(d), run_candidate: None, run_floating: false, depth: d, ..s }
            } else if local == "rPr"@ && s.run_properties is None && s.run_capture is None && s.run_depth is Some
                && s.properties_depth is None {
                StyleScan { run_capture: Some((start, d)), depth: d, ..s }
            } else {
                StyleScan { depth: d, ..s }
            };
            if is_floating_name(local) && s1.run_depth is Some {
                Ok(StyleScan { run_floating: true, ..s1 })
            } else {
                Ok(s1)
            }
        }
    } else if e.kind == XmlEventKind::Empty {
        if local == "pPr"@ && s.paragraph_properties is None {
            Ok(StyleScan { paragraph_properties: Some((start, end)), ..s })
        } else if local == "rPr"@ && s.run_properties is None && s.run_depth is Some && s.properties_depth is None {
            Ok(StyleScan { run_candidate: Some((start, end)), ..s })
        } else {
            Ok(s)
        }
    } else if e.kind == XmlEventKind::End {
        let s1 = if local == "pPr"@ && (s.paragraph_capture matches Some((_, cd)) && cd == s.depth) {
            StyleScan {
                paragraph_properties: Some(((s.paragraph_capture->0).0, end)),
                paragraph_capture: None,
                properties_depth: None,
                ..s
            }
        } else if local == "rPr"@ && (s.run_capture matches Some((_, cd)) && cd == s.depth) {
            StyleScan { run_candidate: Some(((s.run_capture->0).0, end)), run_capture: None, ..s }
        } else if local == "r"@ && s.run_depth == Some(s.depth) {
            StyleScan {
                run_properties: if s.run_properties is None && !s.run_floating {
                    s.run_candidate
                } else {
                    s.run_properties
                },
                run_depth: None,
                run_candidate: None,
                run_floating: false,
                ..s
            }
        } else {
            s
        };
        Ok(StyleScan { depth: if s.depth > 0 { s.depth - 1 } else { 0 }, ..s1 })
    } else if e.kind == XmlEventKind::DocType {
        Err(DocxFault::Xml { part_name: DOCUMENT_PART@, position: start as u64, message: "DOCTYPE declarations are not allowed"@ })
    } else {
        Ok(s)
    }
}

/// The style reading from event `i` on.
pub open spec fn style_from(stream: XmlStream, i: int, s: StyleScan, limits: DocxLimits) -> Result<StyleScan, DocxFault>
    decreases stream.events@.len() - i,
{
    if i < 0 || i >= stream.events@.len() {
        match stream.read_error {
            Some((position, message)) => Err(DocxFault::Xml { part_name: DOCUMENT_PART@, position, message: message@ }),
            None => Ok(s),
        }
    } else {
        let e = stream.events@[i];
        if e.kind == XmlEventKind::Eof {
            Ok(s)
        } else {
            match style_step(s, e, prior_position(stream, i) as int, e.position as int, limits) {
                Err(f) => Err(f),
                Ok(next) => style_from(stream, i + 1, next, limits),
            }
        }
    }
}

/// The paragraph and run properties a style sample lends, given as the
/// events of `xml`: the bytes of its first `pPr`, and of the `rPr` of its
/// first run (outside paragraph properties) that holds no floating object;
/// each empty when there is none.
pub open spec fn spec_style_properties(stream: XmlStream, xml: Seq<u8>, limits: DocxLimits) -> Result<
    (Seq<u8>, Seq<u8>),
    DocxFault,
> {
    match style_from(stream, 0, initial_style_scan(), limits) {
        Err(f) => Err(f),
        Ok(s) => Ok((span_bytes(xml, s.paragraph_properties), span_bytes(xml, s.run_properties))),
    }
}

/// A byte span as integers.
spec fn span_of(span: Option<(usize, usize)>) -> Option<(int, int)> {
    match span {
        Some((a, b)) => Some((a as int, b as int)),
        None => None,
    }
}

/// A depth as an integer.
spec fn level_of(depth: Option<usize>) -> Option<int> {
    match depth {
        Some(d) => Some(d as int),
        None => None,
    }
}

/// Whether a span lies within `0..=limit`, in order.
spec fn span_within(span: Option<(usize, usize)>, limit: int) -> bool {
    span matches Some((a, b)) ==> a <= b <= limit
}

/// The bytes of `xml` a span covers, or none.
fn take_span(xml: &[u8], span: Option<(usize, usize)>) -> (bytes: Vec<u8>)
    requires
        span_within(span, xml@.len() as int),
    ensures
        bytes@ == span_bytes(xml@, span_of(span)),
{
    match span {
        Some((a, b)) => vstd::slice::slice_to_vec(vstd::slice::slice_subrange(xml, a, b)),
        None => Vec::new(),
    }
}

/// Reads the properties a style sample lends, given as the events of its
/// bytes `xml`, whose positions fit the part.
pub fn style_properties_from_events(stream: &XmlStream, xml: &[u8], limits: &DocxLimits) -> (result: DocxResult<
    (Vec<u8>, Vec<u8>),
>)
    requires
        positions_fit(*stream, xml@.len() as int),
    ensures
        match (result, spec_style_properties(*stream, xml@, *limits)) {
            (Ok((p, r)), Ok((ep, er))) => p@ == ep && r@ == er,
            (Err(x), Err(fault)) => x@ == fault,
            _ => false,
        },
{
    let events = stream.events.as_slice();
    let mut depth: usize = 0;
    let mut paragraph_properties: Option<(usize, usize)> = None;
    let mut run_properties: Option<(usize, usize)> = None;
    let mut paragraph_capture: Option<(usize, usize)> = None;
    let mut run_capture: Option<(usize, usize)> = None;
    let mut properties_depth: Option<usize> = None;
    let mut run_depth: Option<usize> = None;
    let mut run_candidate: Option<(usize, usize)> = None;
    let mut run_floating = false;
    let mut start: u64 = 0;
    let mut i: usize = 0;
    let mut ended = false;
    let xml_len = xml.len();
    while i < events.len() && !ended
        invariant
            xml_len == xml@.len(),
            i <= events@.len(),
            events@ == stream.events@,
            positions_fit(*stream, xml@.len() as int),
            depth <= i,
            start == prior_position(*stream, i as int),
            start <= xml@.len(),
            span_within(paragraph_properties, xml@.len() as int),
            span_within(run_properties, xml@.len() as int),
            span_within(run_candidate, xml@.len() as int),
            paragraph_capture matches Some((a, _)) ==> a <= start,
            run_capture matches Some((a, _)) ==> a <= start,
            ({
                let s = StyleScan {
                    depth: depth as int,
                    paragraph_properties: span_of(paragraph_properties),
                    run_properties: span_of(run_properties),
                    paragraph_capture: span_of(paragraph_capture),
                    run_capture: span_of(run_capture),
                    properties_depth: level_of(properties_depth),
                    run_depth: level_of(run_depth),
                    run_candidate: span_of(run_candidate),
                    run_floating,
                };
                &&& ended ==> style_from(*stream, 0, initial_style_scan(), *limits) == Ok::<StyleScan, DocxFault>(s)
                &&& !ended ==> style_from(*stream, 0, initial_style_scan(), *limits) == style_from(
                    *stream,
                    i as int,
                    s,
                    *limits,
                )
            }),
        decreases events@.len() - i + if ended { 0int } else { 1int },
    {
        let e = &events[i];
        assert(e.position <= xml@.len() && (i > 0 ==> stream.events@[i - 1].position <= e.position));
        assert(start <= e.position) by {
            if i > 0 {
                assert(stream.events@[i - 1].position <= stream.events@[i as int].position);
            }
        }
        let s_pos = start as usize;
        let e_pos = e.position as usize;
        assert(s_pos as int == prior_position(*stream, i as int) as int && e_pos as int == e.position as int);
        let local = e.local.as_str();
        if e.kind == XmlEventKind::Eof {
            ended = true;
        } else {
            if e.kind == XmlEventKind::Start {
                let d = depth + 1;
                if d > limits.max_xml_depth {
                    return Err(
                        DocxError::LimitExceeded {
                            resource: "XML depth in template style sample".to_owned(),
                            limit: limits.max_xml_depth as u64,
                            actual: d as u64,
                        },
                    );
                }
                if same_text(local, "pPr") && paragraph_properties.is_none() && paragraph_capture.is_none() {
                    paragraph_capture = Some((s_pos, d));
                    properties_depth = Some(d);
                } else if same_text(local, "r") && run_depth.is_none() {
                    run_depth = Some(d);
                    run_candidate = None;
                    run_floating = false;
                } else if same_text(local, "rPr") && run_properties.is_none() && run_capture.is_none()
                    && run_depth.is_some() && properties_depth.is_none() {
                    run_capture = Some((s_pos, d));
                }
                depth = d;
                if is_floating_object_name(local) && run_depth.is_some() {
                    run_floating = true;
                }
            } else if e.kind == XmlEventKind::Empty {
                if same_text(local, "pPr") && paragraph_properties.is_none() {
                    paragraph_properties = Some((s_pos, e_pos));
                } else if same_text(local, "rPr") && run_properties.is_none() && run_depth.is_some()
                    && properties_depth.is_none() {
                    run_candidate = Some((s_pos, e_pos));
                }
            } else if e.kind == XmlEventKind::End {
                let paragraph_here = match paragraph_capture {
                    Some((_, cd)) => cd == depth,
                    None => false,
                };
                let run_here = match run_capture {
                    Some((_, cd)) => cd == depth,
                    None => false,
                };
                if same_text(local, "pPr") && paragraph_here {
                    let (a, _) = paragraph_capture.unwrap();
                    paragraph_properties = Some((a, e_pos));
                    paragraph_capture = None;
                    properties_depth = None;
                } else if same_text(local, "rPr") && run_here {
                    let (a, _) = run_capture.unwrap();
                    run_candidate = Some((a, e_pos));
                    run_capture = None;
                } else if same_text(local, "r") && run_depth == Some(depth) {
                    if run_properties.is_none() && !run_floating {
                        run_properties = run_candidate;
                    }
                    run_depth = None;
                    run_candidate = None;
                    run_floating = false;
                }
                depth = if depth > 0 {
                    depth - 1
                } else {
                    0
                };
            } else if e.kind == XmlEventKind::DocType {
                return Err(DocxError::xml(DOCUMENT_PART, start, "DOCTYPE declarations are not allowed"));
            }
            start = e.position;
            i = i + 1;
        }
    }
    if !ended {
        match &stream.read_error {
            Some((position, message)) => {
                return Err(DocxError::xml(DOCUMENT_PART, *position, message.as_str()));
            },
            None => {},
        }
    }
    Ok((take_span(xml, paragraph_properties), take_span(xml, run_properties)))
}

/// Whether `result` is what reading a paragraph `xml` with the events
/// `stream` gives: the reading's outcome when the positions fit the
/// paragraph, the positions error otherwise.
pub open spec fn style_outcome(result: DocxResult<(Vec<u8>, Vec<u8>)>, stream: XmlStream, xml: Seq<u8>, limits: DocxLimits) -> bool {
    if positions_fit(stream, xml.len() as int) {
        match (result, spec_style_properties(stream, xml, limits)) {
            (Ok((p, r)), Ok((ep, er))) => p@ == ep && r@ == er,
            (Err(x), Err(fault)) => x@ == fault,
            _ => false,
        }
    } else {
        result matches Err(x) && x@ == doc_fault(0, msg_positions())
    }
}

/// The paragraph and run properties a style sample lends, read from the
/// bytes of the paragraph: the outcome of [`style_properties_from_events`]
/// on the events the XML reader gives, once their positions are checked.
pub fn extract_paragraph_style_properties(paragraph_xml: &[u8], limits: &DocxLimits) -> (result: DocxResult<
    (Vec<u8>, Vec<u8>),
>)
    ensures
        exists|stream: XmlStream|
            stream.source_len == paragraph_xml@.len() && #[trigger] style_outcome(result, stream, paragraph_xml@, *limits),
{
    let stream = crate::xml_reader::read_xml_stream(paragraph_xml);
    if !positions_within(&stream, paragraph_xml.len()) {
        let result = Err(DocxError::xml(DOCUMENT_PART, 0, "the XML reader reported positions outside the part"));
        assert(style_outcome(result, stream, paragraph_xml@, *limits));
        return result;
    }
    let result = style_properties_from_events(&stream, paragraph_xml, limits);
    assert(style_outcome(result, stream, paragraph_xml@, *limits));
    result
}

/// What the floating-object reading knows after some events: the depth,
/// where the paragraph's opening tag ends, its closing tag, the direct child
/// being read (start, depth, whether it holds a floating object), the direct
/// children kept so far, and whether any floating object was seen.
pub struct FloatScan {
    pub depth: int,
    pub open_end: Option<int>,
    pub close: Option<(int, int)>,
    pub child: Option<(int, int, bool)>,
    pub kept: Seq<(int, int)>,
    pub saw_floating: bool,
}

/// The floating-object reading before the first event.
pub open spec fn initial_float_scan() -> FloatScan {
    FloatScan { depth: 0, open_end: None, close: None, child: None, kept: Seq::empty(), saw_floating: false }
}

/// The open child, marked as holding a floating object.
pub open spec fn keep_child(child: Option<(int, int, bool)>) -> Option<(int, int, bool)> {
    match child {
        Some((a, d, _)) => Some((a, d, true)),
        None => None,
    }
}

/// The floating-object reading after the event `e`, which spans bytes
/// `start..end`.
pub open spec fn float_step(s: FloatScan, e: XmlEvent, start: int, end: int, limits: DocxLimits) -> Result<
    FloatScan,
    DocxFault,
> {
    let local = e.local@;
    let floating = is_floating_name(local);
    if e.kind == XmlEventKind::Start {
        let d = s.depth + 1;
        if d > limits.max_xml_depth {
            Err(
                DocxFault::LimitExceeded {
                    resource: "XML depth in floating template object"@,
                    limit: limits.max_xml_depth as u64,
                    actual: d as u64,
                },
            )
        } else {
            let s1 = if d == 1 && local == "p"@ {
                FloatScan { open_end: Some(end), depth: d, ..s }
            } else if d == 2 {
                FloatScan { child: Some((start, d, false)), depth: d, ..s }
            } else {
                FloatScan { depth: d, ..s }
            };
            if floating {
                Ok(FloatScan { saw_floating: true, child: keep_child(s1.child), ..s1 })
            } else {
                Ok(s1)
            }
        }
    } else if e.kind == XmlEventKind::Empty {
        if s.depth == 1 {
            Ok(
                FloatScan {
                    kept: if floating { s.kept.push((start, end)) } else { s.kept },
                    saw_floating: s.saw_floating || floating,
                    ..s
                },
            )
        } else if floating {
            Ok(FloatScan { saw_floating: true, child: keep_child(s.child), ..s })
        } else {
            Ok(s)
        }
    } else if e.kind == XmlEventKind::End {
        let s1 = if local == "p"@ && s.depth == 1 {
            FloatScan { close: Some((start, end)), ..s }
        } else {
            s
        };
        let s2 = match s1.child {
            Some((a, cd, keep)) => if cd == s1.depth {
                FloatScan { child: None, kept: if keep { s1.kept.push((a, end)) } else { s1.kept }, ..s1 }
            } else {
                s1
            },
            None => s1,
        };
        Ok(FloatScan { depth: if s.depth > 0 { s.depth - 1 } else { 0 }, ..s2 })
    } else if e.kind == XmlEventKind::DocType {
        Err(DocxFault::Xml { part_name: DOCUMENT_PART@, position: start as u64, message: "DOCTYPE declarations are not allowed"@ })
    } else {
        Ok(s)
    }
}

/// The floating-object reading from event `i` on.
pub open spec fn float_from(stream: XmlStream, i: int, s: FloatScan, limits: DocxLimits) -> Result<FloatScan, DocxFault>
    decreases stream.events@.len() - i,
{
    if i < 0 || i >= stream.events@.len() {
        match stream.read_error {
            Some((position, message)) => Err(DocxFault::Xml { part_name: DOCUMENT_PART@, position, message: message@ }),
            None => Ok(s),
        }
    } else {
        let e = stream.events@[i];
        if e.kind == XmlEventKind::Eof {
            Ok(s)
        } else {
            match float_step(s, e, prior_position(stream, i) as int, e.position as int, limits) {
                Err(f) => Err(f),
                Ok(next) => float_from(stream, i + 1, next, limits),
            }
        }
    }
}

/// The paragraph properties that collapse a kept paragraph to one twip, in
/// the namespace `namespace`.
pub open spec fn collapsed_properties(namespace: Seq<char>) -> Seq<char> {
    "<ztw:pPr xmlns:ztw=\""@ + namespace
        + "\"><ztw:spacing ztw:before=\"0\" ztw:after=\"0\" ztw:line=\"1\" ztw:lineRule=\"exact\"/></ztw:pPr>"@
}

/// The bytes of the kept spans of `xml`, in order.
pub open spec fn kept_bytes(xml: Seq<u8>, kept: Seq<(int, int)>) -> Seq<u8>
    decreases kept.len(),
{
    if kept.len() == 0 {
        Seq::empty()
    } else {
        kept_bytes(xml, kept.drop_last()) + xml.subrange(kept.last().0, kept.last().1)
    }
}

/// The paragraph that keeps a title paragraph's floating objects: none when
/// it holds no floating object; otherwise its opening tag, collapsed
/// paragraph properties, the direct children that hold floating objects, and
/// its closing tag.
pub open spec fn spec_preserved_paragraph(stream: XmlStream, xml: Seq<u8>, namespace: Seq<char>, limits: DocxLimits) -> Result<
    Option<Seq<u8>>,
    DocxFault,
> {
    match float_from(stream, 0, initial_float_scan(), limits) {
        Err(f) => Err(f),
        Ok(s) => if !s.saw_floating {
            Ok(None)
        } else {
            match (s.open_end, s.close) {
                (None, _) => Err(
                    DocxFault::Xml {
                        part_name: DOCUMENT_PART@,
                        position: 0,
                        message: "template title paragraph has no opening w:p element"@,
                    },
                ),
                (Some(_), None) => Err(
                    DocxFault::Xml {
                        part_name: DOCUMENT_PART@,
                        position: xml.len() as u64,
                        message: "template title paragraph has no closing w:p element"@,
                    },
                ),
                (Some(open_end), Some((a, b))) => Ok(
                    Some(
                        xml.subrange(0, open_end) + vstd::utf8::encode_utf8(collapsed_properties(namespace))
                            + kept_bytes(xml, s.kept) + xml.subrange(a, b),
                    ),
                ),
            }
        },
    }
}

/// A child capture as integers.
spec fn child_of(child: Option<(usize, usize, bool)>) -> Option<(int, int, bool)> {
    match child {
        Some((a, d, k)) => Some((a as int, d as int, k)),
        None => None,
    }
}

/// Spans as integers.
spec fn spans_of(spans: Seq<(usize, usize)>) -> Seq<(int, int)> {
    spans.map_values(|p: (usize, usize)| (p.0 as int, p.1 as int))
}

/// Appends the bytes `xml[a..b]` to `out`.
pub(crate) fn push_bytes_range(out: &mut Vec<u8>, xml: &[u8], a: usize, b: usize)
    requires
        a <= b <= xml@.len(),
    ensures
        final(out)@ == old(out)@ + xml@.subrange(a as int, b as int),
{
    let mut k: usize = a;
    while k < b
        invariant
            a <= k <= b,
            b <= xml@.len(),
            out@ == old(out)@ + xml@.subrange(a as int, k as int),
        decreases b - k,
    {
        out.push(xml[k]);
        assert(old(out)@ + xml@.subrange(a as int, k + 1) =~= (old(out)@ + xml@.subrange(a as int, k as int)).push(
            xml@[k as int],
        ));
        k = k + 1;
    }
}

/// Keeps the floating objects of a title paragraph, given as the events of
/// its bytes `xml`, whose positions fit the part.
pub fn preserved_paragraph_from_events(stream: &XmlStream, xml: &[u8], namespace: &str, limits: &DocxLimits) -> (result:
    DocxResult<Option<Vec<u8>>>)
    requires
        positions_fit(*stream, xml@.len() as int),
    ensures
        match (result, spec_preserved_paragraph(*stream, xml@, namespace@, *limits)) {
            (Ok(Some(p)), Ok(Some(expected))) => p@ == expected,
            (Ok(None), Ok(None)) => true,
            (Err(x), Err(fault)) => x@ == fault,
            _ => false,
        },
{
    let events = stream.events.as_slice();
    let mut depth: usize = 0;
    let mut open_end: Option<usize> = None;
    let mut close: Option<(usize, usize)> = None;
    let mut child: Option<(usize, usize, bool)> = None;
    let mut kept: Vec<(usize, usize)> = Vec::new();
    let mut saw_floating = false;
    let mut start: u64 = 0;
    let mut i: usize = 0;
    let mut ended = false;
    let xml_len = xml.len();
    assert(spans_of(kept@) =~= Seq::<(int, int)>::empty());
    while i < events.len() && !ended
        invariant
            xml_len == xml@.len(),
            i <= events@.len(),
            events@ == stream.events@,
            positions_fit(*stream, xml@.len() as int),
            depth <= i,
            start == prior_position(*stream, i as int),
            start <= xml@.len(),
            open_end matches Some(o) ==> o <= xml@.len(),
            close matches Some((a, b)) ==> a <= b <= xml@.len(),
            child matches Some((a, _, _)) ==> a <= start,
            forall|k: int| 0 <= k < kept@.len() ==> (#[trigger] kept@[k]).0 <= kept@[k].1 <= xml@.len(),
            ({
                let s = FloatScan {
                    depth: depth as int,
                    open_end: match open_end {
                        Some(o) => Some(o as int),
                        None => None,
                    },
                    close: match close {
                        Some((a, b)) => Some((a as int, b as int)),
                        None => None,
                    },
                    child: child_of(child),
                    kept: spans_of(kept@),
                    saw_floating,
                };
                &&& ended ==> float_from(*stream, 0, initial_float_scan(), *limits) == Ok::<FloatScan, DocxFault>(s)
                &&& !ended ==> float_from(*stream, 0, initial_float_scan(), *limits) == float_from(
                    *stream,
                    i as int,
                    s,
                    *limits,
                )
            }),
        decreases events@.len() - i + if ended { 0int } else { 1int },
    {
        let e = &events[i];
        assert(e.position <= xml@.len() && (i > 0 ==> stream.events@[i - 1].position <= e.position));
        assert(start <= e.position) by {
            if i > 0 {
                assert(stream.events@[i - 1].position <= stream.events@[i as int].position);
            }
        }
        let s_pos = start as usize;
        let e_pos = e.position as usize;
        let local = e.local.as_str();
        let floating = is_floating_object_name(local);
        if e.kind == XmlEventKind::Eof {
            ended = true;
        } else {
            if e.kind == XmlEventKind::Start {
                let d = depth + 1;
                if d > limits.max_xml_depth {
                    return Err(
                        DocxError::LimitExceeded {
                            resource: "XML depth in floating template object".to_owned(),
                            limit: limits.max_xml_depth as u64,
                            actual: d as u64,
                        },
                    );
                }
                if d == 1 && same_text(local, "p") {
                    open_end = Some(e_pos);
                } else if d == 2 {
                    child = Some((s_pos, d, false));
                }
                depth = d;
                if floating {
                    saw_floating = true;
                    child = match child {
                        Some((a, cd, _)) => Some((a, cd, true)),
                        None => None,
                    };
                }
            } else if e.kind == XmlEventKind::Empty {
                if depth == 1 {
                    if floating {
                        let ghost before = kept@;
                        kept.push((s_pos, e_pos));
                        assert(spans_of(kept@) =~= spans_of(before).push((s_pos as int, e_pos as int)));
                    }
                    saw_floating = saw_floating || floating;
                } else if floating {
                    saw_floating = true;
                    child = match child {
                        Some((a, cd, _)) => Some((a, cd, true)),
                        None => None,
                    };
                }
            } else if e.kind == XmlEventKind::End {
                if same_text(local, "p") && depth == 1 {
                    close = Some((s_pos, e_pos));
                }
                match child {
                    Some((a, cd, keep)) => {
                        if cd == depth {
                            child = None;
                            if keep {
                                let ghost before = kept@;
                                kept.push((a, e_pos));
                                assert(spans_of(kept@) =~= spans_of(before).push((a as int, e_pos as int)));
                            }
                        }
                    },
                    None => {},
                }
                depth = if depth > 0 {
                    depth - 1
                } else {
                    0
                };
            } else if e.kind == XmlEventKind::DocType {
                return Err(DocxError::xml(DOCUMENT_PART, start, "DOCTYPE declarations are not allowed"));
            }
            start = e.position;
            i = i + 1;
        }
    }
    if !ended {
        match &stream.read_error {
            Some((position, message)) => {
                return Err(DocxError::xml(DOCUMENT_PART, *position, message.as_str()));
            },
            None => {},
        }
    }
    if !saw_floating {
        return Ok(None);
    }
    let o = match open_end {
        None => return Err(DocxError::xml(DOCUMENT_PART, 0, "template title paragraph has no opening w:p element")),
        Some(o) => o,
    };
    let (a, b) = match close {
        None => return Err(
            DocxError::xml(DOCUMENT_PART, xml_len as u64, "template title paragraph has no closing w:p element"),
        ),
        Some(c) => c,
    };
    let mut preserved: Vec<u8> = Vec::new();
    push_bytes_range(&mut preserved, xml, 0, o);
    let mut properties = "<ztw:pPr xmlns:ztw=\"".to_owned();
    properties.append(namespace);
    properties.append("\"><ztw:spacing ztw:before=\"0\" ztw:after=\"0\" ztw:line=\"1\" ztw:lineRule=\"exact\"/></ztw:pPr>");
    let property_bytes = properties.as_str().as_bytes();
    push_bytes_range(&mut preserved, property_bytes, 0, property_bytes.len());
    assert(property_bytes@.subrange(0, property_bytes@.len() as int) =~= property_bytes@);
    let ghost head = preserved@;
    let mut k: usize = 0;
    assert(spans_of(kept@).subrange(0, 0) =~= Seq::<(int, int)>::empty());
    while k < kept.len()
        invariant
            k <= kept@.len(),
            forall|j: int| 0 <= j < kept@.len() ==> (#[trigger] kept@[j]).0 <= kept@[j].1 <= xml@.len(),
            preserved@ == head + kept_bytes(xml@, spans_of(kept@).subrange(0, k as int)),
        decreases kept@.len() - k,
    {
        let (x, y) = kept[k];
        push_bytes_range(&mut preserved, xml, x, y);
        assert(spans_of(kept@).subrange(0, k + 1).drop_last() =~= spans_of(kept@).subrange(0, k as int));
        assert(head + kept_bytes(xml@, spans_of(kept@).subrange(0, k + 1)) =~= head + kept_bytes(
            xml@,
            spans_of(kept@).subrange(0, k as int),
        ) + xml@.subrange(x as int, y as int));
        k = k + 1;
    }
    assert(spans_of(kept@).subrange(0, kept@.len() as int) =~= spans_of(kept@));
    push_bytes_range(&mut preserved, xml, a, b);
    Ok(Some(preserved))
}

/// Whether `result` is what keeping the floating objects of a paragraph
/// `xml` with the events `stream` gives.
pub open spec fn preserved_outcome(
    result: DocxResult<Option<Vec<u8>>>,
    stream: XmlStream,
    xml: Seq<u8>,
    namespace: Seq<char>,
    limits: DocxLimits,
) -> bool {
    if positions_fit(stream, xml.len() as int) {
        match (result, spec_preserved_paragraph(stream, xml, namespace, limits)) {
            (Ok(Some(p)), Ok(Some(expected))) => p@ == expected,
            (Ok(None), Ok(None)) => true,
            (Err(x), Err(fault)) => x@ == fault,
            _ => false,
        }
    } else {
        result matches Err(x) && x@ == doc_fault(0, msg_positions())
    }
}

/// Keeps the direct children of a title paragraph that hold floating
/// DrawingML or VML objects (a side seal or school logo anchored beside the
/// title), drops its visible runs and collapses it to one twip; none when
/// it holds no floating object. Read from the paragraph's bytes: the outcome
/// of [`preserved_paragraph_from_events`] on the events the XML reader
/// gives, once their positions are checked.
pub fn preserve_floating_object_paragraph(paragraph_xml: &[u8], namespace: &str, limits: &DocxLimits) -> (result:
    DocxResult<Option<Vec<u8>>>)
    ensures
        exists|stream: XmlStream|
            stream.source_len == paragraph_xml@.len() && #[trigger] preserved_outcome(
                result,
                stream,
                paragraph_xml@,
                namespace@,
                *limits,
            ),
{
    let stream = crate::xml_reader::read_xml_stream(paragraph_xml);
    if !positions_within(&stream, paragraph_xml.len()) {
        let result = Err(DocxError::xml(DOCUMENT_PART, 0, "the XML reader reported positions outside the part"));
        assert(preserved_outcome(result, stream, paragraph_xml@, namespace@, *limits));
        return result;
    }
    let result = preserved_paragraph_from_events(&stream, paragraph_xml, namespace, limits);
    assert(preserved_outcome(result, stream, paragraph_xml@, namespace@, *limits));
    result
}

} // verus!
