//! Finding the anchors of a Word template: tagged content controls and
//! whole-paragraph `{{NAME}}` markers, with findings for duplicates,
//! malformed controls and missing required names.
use vstd::prelude::*;
use crate::diagnostic::{Diagnostic, DiagnosticView, diagnostics_view};
use crate::document::{ParagraphView, doc_fault, event_start, positions_fit};
use crate::error::{DocxError, DocxFault, DocxResult};
use crate::limits::DocxLimits;
use crate::package::DOCUMENT_PART;
use crate::template::{
    AnchorKind, SdtBuilder, TemplateAnchor, TemplateAnchorReport, finish_control, malformed_control,
    spec_anchor_name,
};
use crate::text::same_text;
use crate::types::ByteSpan;
use crate::xml::{
    NamespaceKind, XmlEvent, XmlEventKind, XmlStream, attribute_value, classify_namespace,
    opt_text, spec_attribute_value, spec_classify,
};

verus! {

/// A content control being read, as plain values.
pub struct SdtView {
    pub start: usize,
    pub tag: Option<Seq<char>>,
    pub properties_depth: int,
    pub content_start: Option<usize>,
    pub content_end: Option<usize>,
}

/// An anchor as plain values.
pub struct AnchorView {
    pub name: Seq<char>,
    pub kind: AnchorKind,
    pub part_name: Seq<char>,
    pub replacement: ByteSpan,
    pub container: ByteSpan,
    pub paragraph_index: Option<usize>,
}

pub open spec fn sdt_view(b: SdtBuilder) -> SdtView {
    SdtView {
        start: b.start,
        tag: opt_text(b.tag),
        properties_depth: b.properties_depth as int,
        content_start: b.content_start,
        content_end: b.content_end,
    }
}

pub open spec fn anchor_view(a: TemplateAnchor) -> AnchorView {
    AnchorView {
        name: a.name@,
        kind: a.kind,
        part_name: a.part_name@,
        replacement: a.replacement_span,
        container: a.container_span,
        paragraph_index: a.paragraph_index,
    }
}

pub open spec fn anchors_view(anchors: Seq<TemplateAnchor>) -> Seq<AnchorView> {
    anchors.map_values(|a: TemplateAnchor| anchor_view(a))
}

/// The anchors and findings after a content control ending at `end` closes.
pub open spec fn close_control(
    control: SdtView,
    end: usize,
    anchors: Seq<AnchorView>,
    diagnostics: Seq<DiagnosticView>,
) -> (Seq<AnchorView>, Seq<DiagnosticView>) {
    match control.tag {
        None => (anchors, diagnostics),
        Some(tag) => match spec_anchor_name(tag) {
            None => (anchors, diagnostics),
            Some(name) => match (control.content_start, control.content_end) {
                (Some(s), Some(e)) => if s <= e {
                    (
                        anchors.push(
                            AnchorView {
                                name,
                                kind: AnchorKind::ContentControl,
                                part_name: DOCUMENT_PART@,
                                replacement: ByteSpan { start: s, end: e },
                                container: ByteSpan { start: control.start, end },
                                paragraph_index: None,
                            },
                        ),
                        diagnostics,
                    )
                } else {
                    (anchors, diagnostics.push(malformed_control(name)))
                },
                _ => (anchors, diagnostics.push(malformed_control(name))),
            },
        },
    }
}

/// What the scan of content controls knows after some events.
pub struct ControlScan {
    pub depth: int,
    pub controls: Seq<SdtView>,
    pub anchors: Seq<AnchorView>,
    pub diagnostics: Seq<DiagnosticView>,
}

/// The innermost open control with `f` applied, when one is open.
pub open spec fn with_last(controls: Seq<SdtView>, f: spec_fn(SdtView) -> SdtView) -> Seq<SdtView> {
    if controls.len() == 0 {
        controls
    } else {
        controls.update(controls.len() - 1, f(controls.last()))
    }
}

/// The innermost open control after a `w:tag` element: inside its
/// properties and still untagged, it takes the tag's `w:val`.
pub open spec fn tag_step(controls: Seq<SdtView>, e: XmlEvent) -> Result<Seq<SdtView>, DocxFault> {
    if controls.len() == 0 || controls.last().properties_depth == 0 || controls.last().tag is Some {
        Ok(controls)
    } else {
        match spec_attribute_value(e, "val"@, Some(NamespaceKind::Word), DOCUMENT_PART@) {
            Err(f) => Err(f),
            Ok(tag) => Ok(controls.update(controls.len() - 1, SdtView { tag, ..controls.last() })),
        }
    }
}

/// The scan after one event spanning `start..end`.
pub open spec fn control_step(s: ControlScan, e: XmlEvent, start: usize, end: usize, limits: DocxLimits) -> Result<
    ControlScan,
    DocxFault,
> {
    let word = spec_classify(e.namespace) == NamespaceKind::Word;
    let local = e.local@;
    match e.kind {
        XmlEventKind::Start => if s.depth + 1 > limits.max_xml_depth {
            Err(
                DocxFault::LimitExceeded {
                    resource: "XML depth in "@ + DOCUMENT_PART@,
                    limit: limits.max_xml_depth as u64,
                    actual: (s.depth + 1) as u64,
                },
            )
        } else {
            let s = ControlScan { depth: s.depth + 1, ..s };
            if !word {
                Ok(s)
            } else if local == "sdt"@ {
                Ok(
                    ControlScan {
                        controls: s.controls.push(
                            SdtView {
                                start,
                                tag: None,
                                properties_depth: 0,
                                content_start: None,
                                content_end: None,
                            },
                        ),
                        ..s
                    },
                )
            } else if local == "sdtPr"@ {
                Ok(
                    ControlScan {
                        controls: with_last(s.controls, apply_change(LastChange::EnterProperties)),
                        ..s
                    },
                )
            } else if local == "tag"@ {
                match tag_step(s.controls, e) {
                    Err(f) => Err(f),
                    Ok(controls) => Ok(ControlScan { controls, ..s }),
                }
            } else if local == "sdtContent"@ {
                Ok(
                    ControlScan {
                        controls: with_last(s.controls, apply_change(LastChange::ContentStarts(end))),
                        ..s
                    },
                )
            } else {
                Ok(s)
            }
        },
        XmlEventKind::Empty => if !word {
            Ok(s)
        } else if local == "tag"@ {
            match tag_step(s.controls, e) {
                Err(f) => Err(f),
                Ok(controls) => Ok(ControlScan { controls, ..s }),
            }
        } else if local == "sdtContent"@ {
            Ok(
                ControlScan {
                    controls: with_last(s.controls, apply_change(LastChange::EmptyContent(end))),
                    ..s
                },
            )
        } else {
            Ok(s)
        },
        XmlEventKind::End => {
            let depth = if s.depth > 0 { s.depth - 1 } else { 0 };
            if !word {
                Ok(ControlScan { depth, ..s })
            } else if local == "sdtPr"@ {
                Ok(
                    ControlScan {
                        depth,
                        controls: with_last(s.controls, apply_change(LastChange::LeaveProperties)),
                        ..s
                    },
                )
            } else if local == "sdtContent"@ {
                Ok(
                    ControlScan {
                        depth,
                        controls: with_last(s.controls, apply_change(LastChange::ContentEnds(start))),
                        ..s
                    },
                )
            } else if local == "sdt"@ {
                if s.controls.len() == 0 {
                    Err(doc_fault(start as int, "w:sdt closing tag has no matching opening tag"@))
                } else {
                    let (anchors, diagnostics) = close_control(s.controls.last(), end, s.anchors, s.diagnostics);
                    Ok(ControlScan { depth, controls: s.controls.drop_last(), anchors, diagnostics })
                }
            } else {
                Ok(ControlScan { depth, ..s })
            }
        },
        XmlEventKind::DocType => Err(doc_fault(start as int, "DOCTYPE declarations are not allowed"@)),
        _ => Ok(s),
    }
}

/// The scan once the part ends at `position`: no control may be open.
pub open spec fn controls_finish(s: ControlScan, position: u64) -> Result<ControlScan, DocxFault> {
    if s.controls.len() > 0 {
        Err(doc_fault(position as int, "document ended inside a content control"@))
    } else {
        Ok(s)
    }
}

/// The content-control scan from event `i` on.
#[verifier::opaque]
pub open spec fn controls_from(stream: XmlStream, i: int, s: ControlScan, limits: DocxLimits) -> Result<
    ControlScan,
    DocxFault,
>
    decreases stream.events@.len() - i,
{
    if i < 0 || i >= stream.events@.len() {
        match stream.read_error {
            Some((position, message)) => Err(doc_fault(position as int, message@)),
            None => controls_finish(s, stream.source_len),
        }
    } else {
        let e = stream.events@[i];
        if e.kind == XmlEventKind::Eof {
            controls_finish(s, e.position)
        } else {
            match control_step(s, e, event_start(stream, i), e.position as usize, limits) {
                Err(f) => Err(f),
                Ok(next) => controls_from(stream, i + 1, next, limits),
            }
        }
    }
}

/// One step of [`controls_from`].
pub proof fn lemma_controls_from_unfold(stream: XmlStream, i: int, s: ControlScan, limits: DocxLimits)
    ensures
        controls_from(stream, i, s, limits) == if i < 0 || i >= stream.events@.len() {
            match stream.read_error {
                Some((position, message)) => Err(doc_fault(position as int, message@)),
                None => controls_finish(s, stream.source_len),
            }
        } else if stream.events@[i].kind == XmlEventKind::Eof {
            controls_finish(s, stream.events@[i].position)
        } else {
            match control_step(
                s,
                stream.events@[i],
                event_start(stream, i),
                stream.events@[i].position as usize,
                limits,
            ) {
                Err(f) => Err(f),
                Ok(next) => controls_from(stream, i + 1, next, limits),
            }
        },
{
    reveal_with_fuel(controls_from, 1);
}

/// Closes a content control ending at `end` into `report`.
fn close_sdt(control: SdtBuilder, end: usize, report: &mut TemplateAnchorReport)
    ensures
        (anchors_view(final(report).anchors@), diagnostics_view(final(report).diagnostics@))
            == close_control(
            sdt_view(control),
            end,
            anchors_view(old(report).anchors@),
            diagnostics_view(old(report).diagnostics@),
        ),
{
    let ghost old_anchors = report.anchors@;
    let ghost old_diagnostics = report.diagnostics@;
    let ghost c = control;
    finish_control(control, end, report);
    proof {
        match c.tag {
            None => {},
            Some(tag) => match spec_anchor_name(tag@) {
                None => {},
                Some(name) => match (c.content_start, c.content_end) {
                    (Some(s), Some(e)) => {
                        if s <= e {
                            assert(report.anchors@ =~= old_anchors.push(report.anchors@.last()));
                            assert(anchors_view(report.anchors@) =~= anchors_view(old_anchors).push(
                                anchor_view(report.anchors@.last()),
                            ));
                        }
                    },
                    _ => {},
                },
            },
        }
    }
}

/// The content-control scan as plain values.
spec fn scan_view(depth: usize, controls: Seq<SdtBuilder>, report: TemplateAnchorReport) -> ControlScan {
    ControlScan {
        depth: depth as int,
        controls: controls.map_values(|b: SdtBuilder| sdt_view(b)),
        anchors: anchors_view(report.anchors@),
        diagnostics: diagnostics_view(report.diagnostics@),
    }
}

/// Sets the tag of the innermost open control from a `w:tag` element.
fn take_tag(controls: &mut Vec<SdtBuilder>, e: &XmlEvent) -> (result: DocxResult<()>)
    ensures
        match (result, tag_step(old(controls)@.map_values(|b: SdtBuilder| sdt_view(b)), *e)) {
            (Ok(_), Ok(next)) => final(controls)@.map_values(|b: SdtBuilder| sdt_view(b)) == next,
            (Err(x), Err(fault)) => x@ == fault,
            _ => false,
        },
        result is Ok ==> final(controls)@.len() == old(controls)@.len() && forall|k: int|
            0 <= k < old(controls)@.len() ==> (#[trigger] final(controls)@[k]).properties_depth
                == old(controls)@[k].properties_depth,
{
    let ghost before = controls@;
    match controls.pop() {
        None => Ok(()),
        Some(mut last) => {
            if last.properties_depth == 0 || last.tag.is_some() {
                controls.push(last);
                assert(controls@ =~= before);
                return Ok(());
            }
            match attribute_value(e, "val", Some(NamespaceKind::Word), DOCUMENT_PART) {
                Err(x) => Err(x),
                Ok(tag) => {
                    last.tag = tag;
                    controls.push(last);
                    assert(controls@.map_values(|b: SdtBuilder| sdt_view(b)) =~= before.map_values(
                        |b: SdtBuilder| sdt_view(b),
                    ).update(before.len() - 1, sdt_view(last)));
                    Ok(())
                },
            }
        },
    }
}

/// How the innermost open control changes.
pub enum LastChange {
    /// One more level inside its properties.
    EnterProperties,
    /// One level out of its properties.
    LeaveProperties,
    /// Its content starts at the given byte, unless it already started.
    ContentStarts(usize),
    /// Its content is empty, at the given byte.
    EmptyContent(usize),
    /// Its content ends at the given byte.
    ContentEnds(usize),
}

pub open spec fn apply_change(change: LastChange) -> spec_fn(SdtView) -> SdtView {
    match change {
        LastChange::EnterProperties => |c: SdtView| SdtView { properties_depth: c.properties_depth + 1, ..c },
        LastChange::LeaveProperties => |c: SdtView|
            SdtView {
                properties_depth: if c.properties_depth > 0 {
                    c.properties_depth - 1
                } else {
                    0
                },
                ..c
            },
        LastChange::ContentStarts(at) => |c: SdtView|
            SdtView {
                content_start: if c.content_start is Some {
                    c.content_start
                } else {
                    Some(at)
                },
                ..c
            },
        LastChange::EmptyContent(at) => |c: SdtView| SdtView { content_start: Some(at), content_end: Some(at), ..c },
        LastChange::ContentEnds(at) => |c: SdtView| SdtView { content_end: Some(at), ..c },
    }
}

/// Changes the innermost open control, when one is open.
fn change_last(controls: &mut Vec<SdtBuilder>, change: LastChange, bound: usize)
    requires
        forall|k: int| 0 <= k < old(controls)@.len() ==> (#[trigger] old(controls)@[k]).properties_depth <= bound,
        bound < usize::MAX,
    ensures
        final(controls)@.map_values(|b: SdtBuilder| sdt_view(b)) == with_last(
            old(controls)@.map_values(|b: SdtBuilder| sdt_view(b)),
            apply_change(change),
        ),
        forall|k: int| 0 <= k < final(controls)@.len() ==> (#[trigger] final(controls)@[k]).properties_depth <= bound + 1,
{
    let ghost before = controls@;
    match controls.pop() {
        None => {
            assert(controls@.map_values(|b: SdtBuilder| sdt_view(b)) =~= before.map_values(|b: SdtBuilder| sdt_view(b)));
        },
        Some(mut last) => {
            match change {
                LastChange::EnterProperties => last.properties_depth = last.properties_depth + 1,
                LastChange::LeaveProperties => last.properties_depth = last.properties_depth.saturating_sub(1),
                LastChange::ContentStarts(at) => {
                    if last.content_start.is_none() {
                        last.content_start = Some(at);
                    }
                },
                LastChange::EmptyContent(at) => {
                    last.content_start = Some(at);
                    last.content_end = Some(at);
                },
                LastChange::ContentEnds(at) => last.content_end = Some(at),
            }
            controls.push(last);
            assert(controls@.map_values(|b: SdtBuilder| sdt_view(b)) =~= with_last(
                before.map_values(|b: SdtBuilder| sdt_view(b)),
                apply_change(change),
            ));
        },
    }
}

/// Every open control is fewer than `n` levels deep in its properties.
spec fn controls_bounded(controls: Seq<SdtBuilder>, n: int) -> bool {
    forall|k: int| 0 <= k < controls.len() ==> (#[trigger] controls[k]).properties_depth <= n
}

/// Takes one event, spanning `start..end`, into the content-control scan.
fn control_event(
    depth: &mut usize,
    controls: &mut Vec<SdtBuilder>,
    report: &mut TemplateAnchorReport,
    e: &XmlEvent,
    start: usize,
    end: usize,
    limits: &DocxLimits,
    index: usize,
) -> (result: DocxResult<()>)
    requires
        *old(depth) <= index,
        controls_bounded(old(controls)@, index as int),
        index < usize::MAX,
    ensures
        match (result, control_step(scan_view(*old(depth), old(controls)@, *old(report)), *e, start, end, *limits)) {
            (Ok(_), Ok(next)) => scan_view(*final(depth), final(controls)@, *final(report)) == next
                && *final(depth) <= index + 1 && controls_bounded(final(controls)@, index + 1),
            (Err(x), Err(fault)) => x@ == fault,
            _ => false,
        },
{
    let word = classify_namespace(&e.namespace) == NamespaceKind::Word;
    let local = e.local.as_str();
    let ghost before_controls = controls@;
    match e.kind {
        XmlEventKind::Start => {
            if *depth + 1 > limits.max_xml_depth {
                let mut resource = "XML depth in ".to_owned();
                resource.append(DOCUMENT_PART);
                return Err(
                    DocxError::LimitExceeded {
                        resource,
                        limit: limits.max_xml_depth as u64,
                        actual: (*depth + 1) as u64,
                    },
                );
            }
            *depth = *depth + 1;
            if word {
                if same_text(local, "sdt") {
                    controls.push(
                        SdtBuilder {
                            start,
                            tag: None,
                            properties_depth: 0,
                            content_start: None,
                            content_end: None,
                        },
                    );
                    assert(controls@.map_values(|b: SdtBuilder| sdt_view(b)) =~= before_controls.map_values(
                        |b: SdtBuilder| sdt_view(b),
                    ).push(sdt_view(controls@.last())));
                } else if same_text(local, "sdtPr") {
                    change_last(controls, LastChange::EnterProperties, index);
                } else if same_text(local, "tag") {
                    return take_tag(controls, e);
                } else if same_text(local, "sdtContent") {
                    change_last(controls, LastChange::ContentStarts(end), index);
                }
            }
            Ok(())
        },
        XmlEventKind::Empty => {
            if word {
                if same_text(local, "tag") {
                    return take_tag(controls, e);
                } else if same_text(local, "sdtContent") {
                    change_last(controls, LastChange::EmptyContent(end), index);
                }
            }
            Ok(())
        },
        XmlEventKind::End => {
            if word {
                if same_text(local, "sdtPr") {
                    change_last(controls, LastChange::LeaveProperties, index);
                } else if same_text(local, "sdtContent") {
                    change_last(controls, LastChange::ContentEnds(start), index);
                } else if same_text(local, "sdt") {
                    match controls.pop() {
                        None => {
                            return Err(
                                DocxError::xml(DOCUMENT_PART, start as u64, "w:sdt closing tag has no matching opening tag"),
                            );
                        },
                        Some(control) => {
                            assert(controls@.map_values(|b: SdtBuilder| sdt_view(b)) =~= before_controls.map_values(
                                |b: SdtBuilder| sdt_view(b),
                            ).drop_last());
                            close_sdt(control, end, report);
                        },
                    }
                }
            }
            *depth = if *depth > 0 { *depth - 1 } else { 0 };
            Ok(())
        },
        XmlEventKind::DocType => Err(
            DocxError::xml(DOCUMENT_PART, start as u64, "DOCTYPE declarations are not allowed"),
        ),
        _ => Ok(()),
    }
}

/// The scan before the first event, keeping what `report` already holds.
pub open spec fn initial_control_scan(report: TemplateAnchorReport) -> ControlScan {
    ControlScan {
        depth: 0,
        controls: Seq::empty(),
        anchors: anchors_view(report.anchors@),
        diagnostics: diagnostics_view(report.diagnostics@),
    }
}

/// Finds the tagged content controls of `word/document.xml`, given as its
/// reader events: each `w:sdt` whose tag, inside its properties, names an
/// anchor becomes a content-control anchor replacing its `w:sdtContent`, or
/// a finding when that content is missing or misplaced. Unbalanced
/// controls, a document type declaration and nesting deeper than the limit
/// are refused.
pub fn scan_content_controls(
    stream: &XmlStream,
    part_len: usize,
    limits: &DocxLimits,
    report: &mut TemplateAnchorReport,
) -> (result: DocxResult<()>)
    requires
        positions_fit(*stream, part_len as int),
    ensures
        match (result, controls_from(*stream, 0, initial_control_scan(*old(report)), *limits)) {
            (Ok(_), Ok(scan)) => anchors_view(final(report).anchors@) == scan.anchors
                && diagnostics_view(final(report).diagnostics@) == scan.diagnostics,
            (Err(x), Err(fault)) => x@ == fault,
            _ => false,
        },
{
    let events = stream.events.as_slice();
    let mut depth: usize = 0;
    let mut controls: Vec<SdtBuilder> = Vec::new();
    let mut start: usize = 0;
    let mut i: usize = 0;
    let ghost initial = initial_control_scan(*report);
    assert(scan_view(depth, controls@, *report).controls =~= Seq::<SdtView>::empty());
    while i < events.len()
        invariant
            i <= events@.len(),
            events@ == stream.events@,
            positions_fit(*stream, part_len as int),
            initial == initial_control_scan(*old(report)),
            start == event_start(*stream, i as int),
            depth <= i,
            controls_bounded(controls@, i as int),
            controls_from(*stream, 0, initial, *limits) == controls_from(
                *stream,
                i as int,
                scan_view(depth, controls@, *report),
                *limits,
            ),
        decreases events@.len() - i,
    {
        let e = &events[i];
        assert(e.position <= part_len);
        let end = e.position as usize;
        proof {
            lemma_controls_from_unfold(*stream, i as int, scan_view(depth, controls@, *report), *limits);
        }
        if e.kind == XmlEventKind::Eof {
            if controls.len() > 0 {
                return Err(DocxError::xml(DOCUMENT_PART, e.position, "document ended inside a content control"));
            }
            return Ok(());
        }
        match control_event(&mut depth, &mut controls, report, e, start, end, limits, i) {
            Err(x) => return Err(x),
            Ok(_) => {},
        }
        start = end;
        i = i + 1;
    }
    proof {
        lemma_controls_from_unfold(*stream, i as int, scan_view(depth, controls@, *report), *limits);
    }
    match &stream.read_error {
        Some((position, message)) => Err(DocxError::xml(DOCUMENT_PART, *position, message.as_str())),
        None => {
            if controls.len() > 0 {
                return Err(
                    DocxError::xml(DOCUMENT_PART, stream.source_len, "document ended inside a content control"),
                );
            }
            Ok(())
        },
    }
}

/// Whether some content-control anchor called `name` replaces content that
/// holds `span`.
pub open spec fn control_covers(anchors: Seq<AnchorView>, name: Seq<char>, span: ByteSpan) -> bool {
    exists|k: int|
        0 <= k < anchors.len() && (#[trigger] anchors[k]).kind == AnchorKind::ContentControl
            && anchors[k].name == name && anchors[k].replacement.start <= span.start
            && anchors[k].replacement.end >= span.end
}

/// The anchors after the marker paragraphs among the first `n` paragraphs
/// are added: a paragraph whose whole text is `{{NAME}}` becomes an anchor
/// unless a content control of that name already covers it.
pub open spec fn with_markers(paragraphs: Seq<ParagraphView>, n: int, anchors: Seq<AnchorView>) -> Seq<AnchorView>
    decreases n,
{
    if n <= 0 || n > paragraphs.len() {
        anchors
    } else {
        let before = with_markers(paragraphs, n - 1, anchors);
        let p = paragraphs[n - 1];
        match crate::template::spec_marker_name(p.text) {
            None => before,
            Some(name) => if control_covers(before, name, p.span) {
                before
            } else {
                before.push(
                    AnchorView {
                        name,
                        kind: AnchorKind::ParagraphMarker,
                        part_name: DOCUMENT_PART@,
                        replacement: p.span,
                        container: p.span,
                        paragraph_index: Some(p.index),
                    },
                )
            },
        }
    }
}

/// Whether `a` sorts no later than `b`: by the start, then the end, of the
/// container.
pub open spec fn sorts_before(a: AnchorView, b: AnchorView) -> bool {
    a.container.start < b.container.start || (a.container.start == b.container.start
        && a.container.end <= b.container.end)
}

/// `a` inserted into `sorted` after every anchor that sorts no later.
pub open spec fn insert_sorted(sorted: Seq<AnchorView>, a: AnchorView) -> Seq<AnchorView>
    decreases sorted.len(),
{
    if sorted.len() == 0 {
        seq![a]
    } else if sorts_before(sorted.last(), a) {
        sorted.push(a)
    } else {
        insert_sorted(sorted.drop_last(), a).push(sorted.last())
    }
}

/// The anchors in container order, equal ones in their original order.
pub open spec fn sort_anchors(anchors: Seq<AnchorView>) -> Seq<AnchorView>
    decreases anchors.len(),
{
    if anchors.len() == 0 {
        anchors
    } else {
        insert_sorted(sort_anchors(anchors.drop_last()), anchors.last())
    }
}

/// How many anchors are called `name`.
pub open spec fn name_count(anchors: Seq<AnchorView>, name: Seq<char>) -> nat
    decreases anchors.len(),
{
    if anchors.len() == 0 {
        0
    } else {
        name_count(anchors.drop_last(), name) + if anchors.last().name == name { 1nat } else { 0nat }
    }
}

/// The names of `anchors`, each once, in order of first appearance.
pub open spec fn distinct_names(anchors: Seq<AnchorView>) -> Seq<Seq<char>>
    decreases anchors.len(),
{
    if anchors.len() == 0 {
        Seq::empty()
    } else {
        let before = distinct_names(anchors.drop_last());
        if before.contains(anchors.last().name) {
            before
        } else {
            before.push(anchors.last().name)
        }
    }
}

/// Whether `a` comes before `b` in character order.
pub open spec fn text_before(a: Seq<char>, b: Seq<char>) -> bool
    decreases a.len(),
{
    if a.len() == 0 {
        b.len() > 0
    } else if b.len() == 0 {
        false
    } else if a[0] != b[0] {
        (a[0] as u32) < (b[0] as u32)
    } else {
        text_before(a.subrange(1, a.len() as int), b.subrange(1, b.len() as int))
    }
}

/// `name` inserted into the ordered `names` after every name before it.
pub open spec fn insert_name(names: Seq<Seq<char>>, name: Seq<char>) -> Seq<Seq<char>>
    decreases names.len(),
{
    if names.len() == 0 {
        seq![name]
    } else if !text_before(name, names.last()) {
        names.push(name)
    } else {
        insert_name(names.drop_last(), name).push(names.last())
    }
}

/// `names` in character order.
pub open spec fn sort_names(names: Seq<Seq<char>>) -> Seq<Seq<char>>
    decreases names.len(),
{
    if names.len() == 0 {
        names
    } else {
        insert_name(sort_names(names.drop_last()), names.last())
    }
}

/// The finding for an anchor name used more than once.
pub open spec fn duplicate_finding(name: Seq<char>, count: nat) -> DiagnosticView {
    crate::package::error_view(
        "DOCX_TEMPLATE_ANCHOR_DUPLICATE"@,
        Some(DOCUMENT_PART@),
        "template anchor '"@ + name + "' occurs "@ + crate::text::decimal(count) + " times"@,
    )
}

/// The findings for the names among `names` that `anchors` use more than
/// once, in the order of `names`.
pub open spec fn duplicate_findings(names: Seq<Seq<char>>, anchors: Seq<AnchorView>) -> Seq<DiagnosticView>
    decreases names.len(),
{
    if names.len() == 0 {
        Seq::empty()
    } else {
        let before = duplicate_findings(names.drop_last(), anchors);
        let count = name_count(anchors, names.last());
        if count > 1 {
            before.push(duplicate_finding(names.last(), count))
        } else {
            before
        }
    }
}

/// The name a required anchor is looked up by: its normalized form, or the
/// text as given when it does not spell an anchor name.
pub open spec fn required_name(required: Seq<char>) -> Seq<char> {
    match spec_anchor_name(required) {
        Some(name) => name,
        None => required,
    }
}

/// The finding for a required anchor that is missing.
pub open spec fn missing_finding(name: Seq<char>) -> DiagnosticView {
    DiagnosticView {
        severity: crate::diagnostic::DiagnosticSeverity::Error,
        code: "DOCX_TEMPLATE_ANCHOR_MISSING"@,
        part_name: Some(DOCUMENT_PART@),
        message: "required template anchor '"@ + name + "' is missing"@,
        suggested_action: Some(
            "Add a content control tagged '"@ + name + "' or a whole paragraph containing '{{"@ + name
                + "}}'."@,
        ),
    }
}

/// The findings for the required names with no anchor, in order.
pub open spec fn missing_findings(required: Seq<Seq<char>>, anchors: Seq<AnchorView>) -> Seq<DiagnosticView>
    decreases required.len(),
{
    if required.len() == 0 {
        Seq::empty()
    } else {
        let before = missing_findings(required.drop_last(), anchors);
        let name = required_name(required.last());
        if name_count(anchors, name) == 0 {
            before.push(missing_finding(name))
        } else {
            before
        }
    }
}

/// The anchors and findings of a template document read from its events:
/// the document's own findings, the content controls, the marker
/// paragraphs, all anchors in container order, then findings for duplicate
/// names (in character order) and for missing required names.
pub open spec fn spec_template_anchors(
    stream: XmlStream,
    xml: Seq<u8>,
    required: Seq<Seq<char>>,
    limits: DocxLimits,
) -> Result<(Seq<AnchorView>, Seq<DiagnosticView>), DocxFault> {
    match crate::document::spec_parse_document(stream, xml, limits) {
        Err(f) => Err(f),
        Ok(doc) => match controls_from(
            stream,
            0,
            ControlScan { depth: 0, controls: Seq::empty(), anchors: Seq::empty(), diagnostics: doc.diagnostics },
            limits,
        ) {
            Err(f) => Err(f),
            Ok(scan) => {
                let all = with_markers(doc.paragraphs, doc.paragraphs.len() as int, scan.anchors);
                let sorted = sort_anchors(all);
                let duplicates = duplicate_findings(sort_names(distinct_names(sorted)), sorted);
                Ok((sorted, scan.diagnostics + duplicates + missing_findings(required, sorted)))
            },
        },
    }
}

/// Whether some content-control anchor called `name` replaces content that
/// holds `span`.
fn covered_by_control(anchors: &Vec<TemplateAnchor>, name: &str, span: ByteSpan) -> (covered: bool)
    ensures
        covered == control_covers(anchors_view(anchors@), name@, span),
{
    let ghost view = anchors_view(anchors@);
    let mut k: usize = 0;
    while k < anchors.len()
        invariant
            k <= anchors@.len(),
            view == anchors_view(anchors@),
            forall|j: int|
                0 <= j < k ==> !((#[trigger] view[j]).kind == AnchorKind::ContentControl && view[j].name
                    == name@ && view[j].replacement.start <= span.start && view[j].replacement.end
                    >= span.end),
        decreases anchors@.len() - k,
    {
        let a = &anchors[k];
        if a.kind == AnchorKind::ContentControl && same_text(a.name.as_str(), name)
            && a.replacement_span.contains(span) {
            assert(view[k as int] == anchor_view(anchors@[k as int]));
            return true;
        }
        k = k + 1;
    }
    false
}

/// Adds an anchor for each marker paragraph not already covered by a
/// content control of the same name.
fn add_marker_anchors(paragraphs: &Vec<crate::document::Paragraph>, anchors: &mut Vec<TemplateAnchor>)
    ensures
        anchors_view(final(anchors)@) == with_markers(
            paragraphs@.map_values(|p: crate::document::Paragraph| crate::document::paragraph_view(p)),
            paragraphs@.len() as int,
            anchors_view(old(anchors)@),
        ),
{
    let ghost views = paragraphs@.map_values(|p: crate::document::Paragraph| crate::document::paragraph_view(p));
    let ghost start = anchors_view(anchors@);
    let mut i: usize = 0;
    while i < paragraphs.len()
        invariant
            i <= paragraphs@.len(),
            views == paragraphs@.map_values(|p: crate::document::Paragraph| crate::document::paragraph_view(p)),
            start == anchors_view(old(anchors)@),
            anchors_view(anchors@) == with_markers(views, i as int, start),
        decreases paragraphs@.len() - i,
    {
        let paragraph = &paragraphs[i];
        assert(views[i as int] == crate::document::paragraph_view(*paragraph));
        match crate::template::marker_name(paragraph.logical_text.as_str()) {
            None => {},
            Some(name) => {
                if !covered_by_control(anchors, name.as_str(), paragraph.source_span) {
                    let ghost before = anchors@;
                    let anchor = TemplateAnchor {
                        name,
                        kind: AnchorKind::ParagraphMarker,
                        part_name: DOCUMENT_PART.to_owned(),
                        replacement_span: paragraph.source_span,
                        container_span: paragraph.source_span,
                        paragraph_index: Some(paragraph.index),
                    };
                    anchors.push(anchor);
                    assert(anchors_view(anchors@) =~= anchors_view(before).push(anchor_view(anchor)));
                }
            },
        }
        i = i + 1;
    }
}

/// Inserts `a` into the ordered `sorted` after every anchor that sorts no
/// later.
fn insert_anchor(sorted: &mut Vec<TemplateAnchor>, a: TemplateAnchor)
    ensures
        anchors_view(final(sorted)@) == insert_sorted(anchors_view(old(sorted)@), anchor_view(a)),
    decreases old(sorted)@.len(),
{
    let ghost before = sorted@;
    if sorted.len() == 0 {
        sorted.push(a);
        assert(anchors_view(sorted@) =~= seq![anchor_view(a)]);
        return;
    }
    let n = sorted.len();
    let last_start = sorted[n - 1].container_span.start;
    let last_end = sorted[n - 1].container_span.end;
    if last_start < a.container_span.start || (last_start == a.container_span.start && last_end
        <= a.container_span.end) {
        sorted.push(a);
        assert(anchors_view(before).last() == anchor_view(before.last()));
        assert(anchors_view(sorted@) =~= anchors_view(before).push(anchor_view(a)));
        return;
    }
    let last = sorted.pop().unwrap();
    assert(anchors_view(sorted@) =~= anchors_view(before).drop_last());
    insert_anchor(sorted, a);
    let ghost middle = sorted@;
    sorted.push(last);
    assert(anchors_view(sorted@) =~= anchors_view(middle).push(anchor_view(last)));
}

/// The anchors in container order, equal ones in their original order.
fn sort_anchor_list(anchors: Vec<TemplateAnchor>) -> (sorted: Vec<TemplateAnchor>)
    ensures
        anchors_view(sorted@) == sort_anchors(anchors_view(anchors@)),
{
    let ghost all = anchors_view(anchors@);
    let mut rest = anchors;
    let total = rest.len();
    let mut sorted: Vec<TemplateAnchor> = Vec::new();
    let mut taken: usize = 0;
    assert(all.subrange(0, 0) =~= Seq::<AnchorView>::empty());
    while rest.len() > 0
        invariant
            total == all.len(),
            taken + rest@.len() == all.len(),
            anchors_view(rest@) == all.subrange(taken as int, all.len() as int),
            anchors_view(sorted@) == sort_anchors(all.subrange(0, taken as int)),
        decreases rest@.len(),
    {
        let ghost before = rest@;
        let a = rest.remove(0);
        assert(anchors_view(before)[0] == anchor_view(before[0]));
        assert(anchors_view(before)[0] == all.subrange(taken as int, all.len() as int)[0]);
        assert(anchor_view(a) == all[taken as int]);
        assert(rest@ =~= before.subrange(1, before.len() as int));
        assert(anchors_view(rest@) =~= anchors_view(before).subrange(1, before.len() as int));
        assert(anchors_view(rest@) =~= all.subrange(taken + 1, all.len() as int));
        assert(all.subrange(0, taken + 1).drop_last() =~= all.subrange(0, taken as int));
        insert_anchor(&mut sorted, a);
        taken = taken + 1;
    }
    assert(all.subrange(0, all.len() as int) =~= all);
    sorted
}

/// The characters of each string.
pub open spec fn names_view(names: Seq<String>) -> Seq<Seq<char>> {
    names.map_values(|n: String| n@)
}

/// How many anchors are called `name`.
fn count_name(anchors: &Vec<TemplateAnchor>, name: &str) -> (count: u64)
    ensures
        count == name_count(anchors_view(anchors@), name@),
{
    let ghost view = anchors_view(anchors@);
    let mut count: u64 = 0;
    let mut k: usize = 0;
    while k < anchors.len()
        invariant
            k <= anchors@.len(),
            view == anchors_view(anchors@),
            count <= k,
            count == name_count(view.subrange(0, k as int), name@),
        decreases anchors@.len() - k,
    {
        assert(view.subrange(0, k + 1).drop_last() =~= view.subrange(0, k as int));
        if same_text(anchors[k].name.as_str(), name) {
            count = count + 1;
        }
        k = k + 1;
    }
    assert(view.subrange(0, anchors@.len() as int) =~= view);
    count
}

/// Whether `names` holds `name`.
fn holds_name(names: &Vec<String>, name: &str) -> (found: bool)
    ensures
        found == names_view(names@).contains(name@),
{
    let ghost view = names_view(names@);
    let mut k: usize = 0;
    while k < names.len()
        invariant
            k <= names@.len(),
            view == names_view(names@),
            forall|j: int| 0 <= j < k ==> view[j] != name@,
        decreases names@.len() - k,
    {
        if same_text(names[k].as_str(), name) {
            assert(view[k as int] == name@);
            return true;
        }
        k = k + 1;
    }
    false
}

/// The names of `anchors`, each once, in order of first appearance.
fn distinct_anchor_names(anchors: &Vec<TemplateAnchor>) -> (names: Vec<String>)
    ensures
        names_view(names@) == distinct_names(anchors_view(anchors@)),
{
    let ghost view = anchors_view(anchors@);
    let mut names: Vec<String> = Vec::new();
    let mut k: usize = 0;
    assert(names_view(names@) =~= Seq::<Seq<char>>::empty());
    while k < anchors.len()
        invariant
            k <= anchors@.len(),
            view == anchors_view(anchors@),
            names_view(names@) == distinct_names(view.subrange(0, k as int)),
        decreases anchors@.len() - k,
    {
        assert(view.subrange(0, k + 1).drop_last() =~= view.subrange(0, k as int));
        let name = &anchors[k].name;
        if !holds_name(&names, name.as_str()) {
            let ghost before = names@;
            names.push(name.clone());
            assert(names_view(names@) =~= names_view(before).push(name@));
        }
        k = k + 1;
    }
    assert(view.subrange(0, anchors@.len() as int) =~= view);
    names
}

/// Whether `a` comes before `b` in character order.
pub(crate) fn chars_before(a: &[char], b: &[char]) -> (before: bool)
    ensures
        before == text_before(a@, b@),
{
    let mut i: usize = 0;
    assert(a@.subrange(0, a@.len() as int) =~= a@);
    assert(b@.subrange(0, b@.len() as int) =~= b@);
    while i < a.len() && i < b.len() && a[i] == b[i]
        invariant
            i <= a@.len(),
            i <= b@.len(),
            text_before(a@, b@) == text_before(
                a@.subrange(i as int, a@.len() as int),
                b@.subrange(i as int, b@.len() as int),
            ),
        decreases a@.len() - i,
    {
        let ghost ra = a@.subrange(i as int, a@.len() as int);
        let ghost rb = b@.subrange(i as int, b@.len() as int);
        assert(ra.subrange(1, ra.len() as int) =~= a@.subrange(i + 1, a@.len() as int));
        assert(rb.subrange(1, rb.len() as int) =~= b@.subrange(i + 1, b@.len() as int));
        i = i + 1;
    }
    if i == a.len() {
        i < b.len()
    } else if i == b.len() {
        false
    } else {
        (a[i] as u32) < (b[i] as u32)
    }
}

/// Inserts `name` into the ordered `names` after every name before it.
pub(crate) fn insert_name_sorted(names: &mut Vec<String>, name: String)
    ensures
        names_view(final(names)@) == insert_name(names_view(old(names)@), name@),
    decreases old(names)@.len(),
{
    let ghost before = names@;
    if names.len() == 0 {
        names.push(name);
        assert(names_view(names@) =~= seq![name@]);
        return;
    }
    let n = names.len();
    let name_chars = crate::text::chars_of(name.as_str());
    let last_chars = crate::text::chars_of(names[n - 1].as_str());
    assert(names_view(before).last() == before.last()@);
    if !chars_before(name_chars.as_slice(), last_chars.as_slice()) {
        names.push(name);
        assert(names_view(names@) =~= names_view(before).push(name@));
        return;
    }
    let last = names.pop().unwrap();
    assert(names_view(names@) =~= names_view(before).drop_last());
    insert_name_sorted(names, name);
    let ghost middle = names@;
    names.push(last);
    assert(names_view(names@) =~= names_view(middle).push(last@));
}

/// `names` in character order.
pub(crate) fn sort_name_list(names: Vec<String>) -> (sorted: Vec<String>)
    ensures
        names_view(sorted@) == sort_names(names_view(names@)),
{
    let ghost all = names_view(names@);
    let mut rest = names;
    let total = rest.len();
    let mut sorted: Vec<String> = Vec::new();
    let mut taken: usize = 0;
    assert(all.subrange(0, 0) =~= Seq::<Seq<char>>::empty());
    assert(names_view(sorted@) =~= Seq::<Seq<char>>::empty());
    while rest.len() > 0
        invariant
            total == all.len(),
            taken + rest@.len() == all.len(),
            names_view(rest@) == all.subrange(taken as int, all.len() as int),
            names_view(sorted@) == sort_names(all.subrange(0, taken as int)),
        decreases rest@.len(),
    {
        let ghost before = rest@;
        let n = rest.remove(0);
        assert(names_view(before)[0] == before[0]@);
        assert(names_view(before)[0] == all.subrange(taken as int, all.len() as int)[0]);
        assert(rest@ =~= before.subrange(1, before.len() as int));
        assert(names_view(rest@) =~= names_view(before).subrange(1, before.len() as int));
        assert(names_view(rest@) =~= all.subrange(taken + 1, all.len() as int));
        assert(all.subrange(0, taken + 1).drop_last() =~= all.subrange(0, taken as int));
        insert_name_sorted(&mut sorted, n);
        taken = taken + 1;
    }
    assert(all.subrange(0, all.len() as int) =~= all);
    sorted
}

/// Appends a finding for each name among `names` that `anchors` use more
/// than once.
fn push_duplicate_findings(names: &Vec<String>, anchors: &Vec<TemplateAnchor>, diagnostics: &mut Vec<Diagnostic>)
    ensures
        diagnostics_view(final(diagnostics)@) == diagnostics_view(old(diagnostics)@) + duplicate_findings(
            names_view(names@),
            anchors_view(anchors@),
        ),
{
    let ghost start = diagnostics_view(diagnostics@);
    let ghost view = names_view(names@);
    let mut k: usize = 0;
    assert(start + Seq::<DiagnosticView>::empty() =~= start);
    while k < names.len()
        invariant
            k <= names@.len(),
            view == names_view(names@),
            start == diagnostics_view(old(diagnostics)@),
            diagnostics_view(diagnostics@) == start + duplicate_findings(view.subrange(0, k as int), anchors_view(anchors@)),
        decreases names@.len() - k,
    {
        assert(view.subrange(0, k + 1).drop_last() =~= view.subrange(0, k as int));
        assert(view.subrange(0, k + 1).last() == names@[k as int]@);
        let name = &names[k];
        let count = count_name(anchors, name.as_str());
        if count > 1 {
            let mut message = "template anchor '".to_owned();
            message.append(name.as_str());
            message.append("' occurs ");
            crate::text::push_decimal(&mut message, count);
            message.append(" times");
            let d = Diagnostic::error("DOCX_TEMPLATE_ANCHOR_DUPLICATE", Some(DOCUMENT_PART.to_owned()), message);
            let ghost before = diagnostics@;
            diagnostics.push(d);
            assert(diagnostics_view(diagnostics@) =~= diagnostics_view(before).push(d@));
            assert(d@ == duplicate_finding(name@, count as nat));
            assert(diagnostics_view(diagnostics@) =~= start + duplicate_findings(view.subrange(0, k + 1), anchors_view(anchors@)));
        }
        k = k + 1;
    }
    assert(view.subrange(0, names@.len() as int) =~= view);
}

/// The characters of each required name.
pub open spec fn required_view(required: Seq<&str>) -> Seq<Seq<char>> {
    required.map_values(|r: &str| r@)
}

/// Appends a finding for each required name without an anchor.
fn push_missing_findings(required: &[&str], anchors: &Vec<TemplateAnchor>, diagnostics: &mut Vec<Diagnostic>)
    ensures
        diagnostics_view(final(diagnostics)@) == diagnostics_view(old(diagnostics)@) + missing_findings(
            required_view(required@),
            anchors_view(anchors@),
        ),
{
    let ghost start = diagnostics_view(diagnostics@);
    let ghost view = required_view(required@);
    let mut k: usize = 0;
    assert(start + Seq::<DiagnosticView>::empty() =~= start);
    while k < required.len()
        invariant
            k <= required@.len(),
            view == required_view(required@),
            start == diagnostics_view(old(diagnostics)@),
            diagnostics_view(diagnostics@) == start + missing_findings(view.subrange(0, k as int), anchors_view(anchors@)),
        decreases required@.len() - k,
    {
        assert(view.subrange(0, k + 1).drop_last() =~= view.subrange(0, k as int));
        assert(view.subrange(0, k + 1).last() == required@[k as int]@);
        let given = required[k];
        let name = match crate::template::normalize_anchor_name(given) {
            Some(name) => name,
            None => given.to_owned(),
        };
        if count_name(anchors, name.as_str()) == 0 {
            let mut message = "required template anchor '".to_owned();
            message.append(name.as_str());
            message.append("' is missing");
            let mut action = "Add a content control tagged '".to_owned();
            action.append(name.as_str());
            action.append("' or a whole paragraph containing '{{");
            action.append(name.as_str());
            action.append("}}'.");
            let d = Diagnostic::new(
                crate::diagnostic::DiagnosticSeverity::Error,
                "DOCX_TEMPLATE_ANCHOR_MISSING",
                Some(DOCUMENT_PART.to_owned()),
                message,
                Some(action),
            );
            let ghost before = diagnostics@;
            diagnostics.push(d);
            assert(diagnostics_view(diagnostics@) =~= diagnostics_view(before).push(d@));
            assert(d@ == missing_finding(name@));
            assert(diagnostics_view(diagnostics@) =~= start + missing_findings(view.subrange(0, k + 1), anchors_view(anchors@)));
        }
        k = k + 1;
    }
    assert(view.subrange(0, required@.len() as int) =~= view);
}

/// Discovers the anchors of a template document, given as its events and
/// bytes, and diagnoses duplicate names and every required name that is
/// missing. Marker paragraphs follow exactly the visible-text rules of
/// [`parse_document_events`](crate::document::parse_document_events).
pub fn check_template_anchor_events(
    stream: &XmlStream,
    xml: &[u8],
    required: &[&str],
    limits: &DocxLimits,
) -> (result: DocxResult<TemplateAnchorReport>)
    requires
        positions_fit(*stream, xml@.len() as int),
    ensures
        match (result, spec_template_anchors(*stream, xml@, required_view(required@), *limits)) {
            (Ok(report), Ok((anchors, diagnostics))) => anchors_view(report.anchors@) == anchors
                && diagnostics_view(report.diagnostics@) == diagnostics,
            (Err(x), Err(fault)) => x@ == fault,
            _ => false,
        },
{
    let parsed = match crate::document::parse_document_events(stream, xml, limits) {
        Err(x) => return Err(x),
        Ok(parsed) => parsed,
    };
    let paragraphs = parsed.paragraphs;
    let mut report = TemplateAnchorReport { anchors: Vec::new(), diagnostics: parsed.diagnostics };
    assert(anchors_view(report.anchors@) =~= Seq::<AnchorView>::empty());
    match scan_content_controls(stream, xml.len(), limits, &mut report) {
        Err(x) => return Err(x),
        Ok(_) => {},
    }
    add_marker_anchors(&paragraphs, &mut report.anchors);
    let sorted = sort_anchor_list(report.anchors);
    let names = sort_name_list(distinct_anchor_names(&sorted));
    let mut diagnostics = report.diagnostics;
    push_duplicate_findings(&names, &sorted, &mut diagnostics);
    push_missing_findings(required, &sorted, &mut diagnostics);
    Ok(TemplateAnchorReport { anchors: sorted, diagnostics })
}

/// Whether `result` is what checking the events `stream` of `xml` gives:
/// the outcome of [`check_template_anchor_events`] when their positions fit
/// the part, the positions error otherwise.
pub open spec fn anchors_outcome(
    result: DocxResult<TemplateAnchorReport>,
    stream: XmlStream,
    xml: Seq<u8>,
    required: Seq<Seq<char>>,
    limits: DocxLimits,
) -> bool {
    if positions_fit(stream, xml.len() as int) {
        match (result, spec_template_anchors(stream, xml, required, limits)) {
            (Ok(report), Ok((anchors, diagnostics))) => anchors_view(report.anchors@) == anchors
                && diagnostics_view(report.diagnostics@) == diagnostics,
            (Err(x), Err(fault)) => x@ == fault,
            _ => false,
        }
    } else {
        result matches Err(x) && x@ == doc_fault(0, crate::document::msg_positions())
    }
}

/// Discovers the anchors of a template's `word/document.xml`, read from its
/// bytes: the outcome of [`check_template_anchor_events`] on the events the
/// XML reader gives for them, once their positions are checked to lie
/// within the part.
pub fn check_template_anchors(xml: &[u8], required: &[&str], limits: &DocxLimits) -> (result: DocxResult<
    TemplateAnchorReport,
>)
    ensures
        exists|stream: XmlStream|
            stream.source_len == xml@.len() && #[trigger] anchors_outcome(
                result,
                stream,
                xml@,
                required_view(required@),
                *limits,
            ),
{
    let stream = crate::xml_reader::read_part_events(xml, limits.max_xml_part_bytes);
    if !crate::document::positions_within(&stream, xml.len()) {
        let result = Err(DocxError::xml(DOCUMENT_PART, 0, "the XML reader reported positions outside the part"));
        assert(anchors_outcome(result, stream, xml@, required_view(required@), *limits));
        return result;
    }
    let result = check_template_anchor_events(&stream, xml, required, limits);
    assert(anchors_outcome(result, stream, xml@, required_view(required@), *limits));
    result
}

} // verus!
