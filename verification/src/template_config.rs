//! Turning an ordinary exam paper into a managed template: where the title
//! and question regions go, which paragraphs lend their styles to each role,
//! and what a preview of the template shows.
use vstd::prelude::*;
use crate::diagnostic::{Diagnostic, DiagnosticSeverity, DiagnosticView, diagnostics_view};
use crate::error::{DocxError, DocxFault, DocxResult};
use crate::limits::DocxLimits;
use crate::package::DOCUMENT_PART;
use crate::page_setup::prior_position;
use crate::anchors::{names_view, sort_name_list, sort_names};
use crate::document::{Paragraph, ParsedDocument, document_outcome, lemma_paragraph_spans_within, parse_document_xml, paragraph_view, positions_fit};
use crate::diagnostic::has_error;
use crate::docx::analyze_template_package;
use crate::package::{PackageKind, spec_archive_size_diagnostic};
use crate::template::TemplatePackageAnalysis;
use crate::template::TemplateAnchor;
use crate::text::{chars_of, has_prefix, same_text, starts_with_chars};
use crate::types::ByteSpan;
use crate::xml::{NamespaceKind, ResolvedNamespace, WML_STRICT, WML_TRANSITIONAL, XmlEventKind, XmlStream, classify_namespace, spec_classify};

use crate::template_styles::{extract_paragraph_style_properties, preserve_floating_object_paragraph, preserved_outcome, style_outcome};
use vstd::string::StringSliceAdditionalSpecFns;

verus! {

/// The anchors a managed template may hold.
pub open spec fn is_supported_anchor(name: Seq<char>) -> bool {
    name == "ZT_TITLE"@ || name == "ZT_QUESTIONS"@ || name == "ZT_ANSWERS"@ || name == "ZT_EXPLANATIONS"@
}

/// A finding of an error in the main document, without a suggested action.
pub open spec fn document_error(code: Seq<char>, message: Seq<char>) -> DiagnosticView {
    DiagnosticView {
        severity: DiagnosticSeverity::Error,
        code,
        part_name: Some(DOCUMENT_PART@),
        message,
        suggested_action: None,
    }
}

/// A refusal with one finding.
pub open spec fn refusal(d: DiagnosticView) -> DocxFault {
    DocxFault::Rejected { diagnostics: seq![d] }
}

/// A refusal with one error finding about the main document.
fn document_refusal(code: &'static str, message: String) -> (error: DocxError)
    ensures
        error@ == refusal(document_error(code@, message@)),
{
    let d = Diagnostic::error(code, Some(DOCUMENT_PART.to_owned()), message);
    let found = vec![d];
    assert(diagnostics_view(found@) =~= seq![document_error(code@, message@)]);
    DocxError::rejected(found)
}

/// The refusal of a template without a readable main document.
pub open spec fn missing_document_fault() -> DocxFault {
    refusal(
        document_error(
            "TEMPLATE_CONFIGURATION_DOCUMENT_MISSING"@,
            "template package has no readable word/document.xml"@,
        ),
    )
}

/// The refusal of a template without a readable main document.
pub fn missing_document_error() -> (error: DocxError)
    ensures
        error@ == missing_document_fault(),
{
    document_refusal(
        "TEMPLATE_CONFIGURATION_DOCUMENT_MISSING",
        "template package has no readable word/document.xml".to_owned(),
    )
}

/// The depth error of `word/document.xml`.
pub open spec fn document_depth_fault(limits: DocxLimits, depth: int) -> DocxFault {
    DocxFault::LimitExceeded {
        resource: "XML depth in "@ + DOCUMENT_PART@,
        limit: limits.max_xml_depth as u64,
        actual: depth as u64,
    }
}

/// The depth error of `word/document.xml`.
fn document_depth_error(limits: &DocxLimits, depth: usize) -> (error: DocxError)
    ensures
        error@ == document_depth_fault(*limits, depth as int),
{
    let mut resource = "XML depth in ".to_owned();
    resource.append(DOCUMENT_PART);
    DocxError::LimitExceeded { resource, limit: limits.max_xml_depth as u64, actual: depth as u64 }
}

/// The refusal of a DOCTYPE declaration starting at byte `start`.
pub open spec fn document_doctype_fault(start: u64) -> DocxFault {
    DocxFault::Xml { part_name: DOCUMENT_PART@, position: start, message: "DOCTYPE declarations are not allowed"@ }
}

/// The error that stops the reading at the end of the events, if any.
pub open spec fn stream_fault(stream: XmlStream) -> Option<DocxFault> {
    match stream.read_error {
        Some((position, message)) => Some(DocxFault::Xml { part_name: DOCUMENT_PART@, position, message: message@ }),
        None => None,
    }
}

/// The refusal of a document root outside WordprocessingML.
pub open spec fn namespace_unsupported_fault() -> DocxFault {
    refusal(
        document_error(
            "TEMPLATE_CONFIGURATION_WORD_NAMESPACE_UNSUPPORTED"@,
            "document root does not use a supported WordprocessingML namespace"@,
        ),
    )
}

/// The WordprocessingML namespace of the first `document` element from
/// event `i` on, after `depth` opened elements.
pub open spec fn namespace_from(stream: XmlStream, i: int, depth: int, limits: DocxLimits) -> Result<Seq<char>, DocxFault>
    decreases stream.events@.len() - i,
{
    if i < 0 || i >= stream.events@.len() {
        match stream_fault(stream) {
            Some(f) => Err(f),
            None => Err(missing_document_fault()),
        }
    } else {
        let e = stream.events@[i];
        if e.kind == XmlEventKind::Eof {
            Err(missing_document_fault())
        } else if e.kind == XmlEventKind::Start || e.kind == XmlEventKind::Empty {
            if depth + 1 > limits.max_xml_depth {
                Err(document_depth_fault(limits, depth + 1))
            } else if e.local@ == "document"@ {
                match e.namespace {
                    ResolvedNamespace::Bound(uri) => if uri@ == WML_TRANSITIONAL@ {
                        Ok(WML_TRANSITIONAL@)
                    } else if uri@ == WML_STRICT@ {
                        Ok(WML_STRICT@)
                    } else {
                        Err(namespace_unsupported_fault())
                    },
                    _ => Err(namespace_unsupported_fault()),
                }
            } else {
                namespace_from(stream, i + 1, depth + 1, limits)
            }
        } else if e.kind == XmlEventKind::DocType {
            Err(document_doctype_fault(prior_position(stream, i)))
        } else {
            namespace_from(stream, i + 1, depth, limits)
        }
    }
}

/// The WordprocessingML namespace (transitional or strict) of the document
/// root, given as the events of `word/document.xml`.
pub fn document_word_namespace(stream: &XmlStream, limits: &DocxLimits) -> (result: DocxResult<&'static str>)
    ensures
        match (result, namespace_from(*stream, 0, 0, *limits)) {
            (Ok(ns), Ok(expected)) => ns@ == expected,
            (Err(x), Err(fault)) => x@ == fault,
            _ => false,
        },
{
    let events = stream.events.as_slice();
    let mut depth: usize = 0;
    let mut start: u64 = 0;
    let mut i: usize = 0;
    while i < events.len()
        invariant
            i <= events@.len(),
            events@ == stream.events@,
            depth <= i,
            start == prior_position(*stream, i as int),
            namespace_from(*stream, 0, 0, *limits) == namespace_from(*stream, i as int, depth as int, *limits),
        decreases events@.len() - i,
    {
        let e = &events[i];
        if e.kind == XmlEventKind::Eof {
            return Err(missing_document_error());
        } else if e.kind == XmlEventKind::Start || e.kind == XmlEventKind::Empty {
            let next = depth + 1;
            if next > limits.max_xml_depth {
                return Err(document_depth_error(limits, next));
            }
            if same_text(e.local.as_str(), "document") {
                return match &e.namespace {
                    ResolvedNamespace::Bound(uri) => {
                        if same_text(uri.as_str(), WML_TRANSITIONAL) {
                            Ok(WML_TRANSITIONAL)
                        } else if same_text(uri.as_str(), WML_STRICT) {
                            Ok(WML_STRICT)
                        } else {
                            Err(
                                document_refusal(
                                    "TEMPLATE_CONFIGURATION_WORD_NAMESPACE_UNSUPPORTED",
                                    "document root does not use a supported WordprocessingML namespace".to_owned(),
                                ),
                            )
                        }
                    },
                    _ => Err(
                        document_refusal(
                            "TEMPLATE_CONFIGURATION_WORD_NAMESPACE_UNSUPPORTED",
                            "document root does not use a supported WordprocessingML namespace".to_owned(),
                        ),
                    ),
                };
            }
            depth = next;
        } else if e.kind == XmlEventKind::DocType {
            return Err(DocxError::xml(DOCUMENT_PART, start, "DOCTYPE declarations are not allowed"));
        }
        start = e.position;
        i = i + 1;
    }
    match &stream.read_error {
        Some((position, message)) => Err(DocxError::xml(DOCUMENT_PART, *position, message.as_str())),
        None => Err(missing_document_error()),
    }
}

/// The refusal of a document without a body to configure.
pub open spec fn body_missing_fault() -> DocxFault {
    refusal(
        document_error(
            "TEMPLATE_CONFIGURATION_BODY_MISSING"@,
            "word/document.xml has no configurable document body"@,
        ),
    )
}

/// Where new body content goes, read from event `i` on, after `depth` open
/// elements with the body (if open) at `body`: before the body's own
/// `w:sectPr`, or else before the body's closing tag.
pub open spec fn insert_offset_from(stream: XmlStream, i: int, depth: int, body: Option<int>, limits: DocxLimits) -> Result<
    usize,
    DocxFault,
>
    decreases stream.events@.len() - i,
{
    if i < 0 || i >= stream.events@.len() {
        match stream_fault(stream) {
            Some(f) => Err(f),
            None => Err(body_missing_fault()),
        }
    } else {
        let e = stream.events@[i];
        let start = prior_position(stream, i);
        let word = spec_classify(e.namespace) == NamespaceKind::Word;
        if e.kind == XmlEventKind::Eof {
            Err(body_missing_fault())
        } else if e.kind == XmlEventKind::Start {
            let d = depth + 1;
            if d > limits.max_xml_depth {
                Err(document_depth_fault(limits, d))
            } else if word && e.local@ == "body"@ {
                insert_offset_from(stream, i + 1, d, Some(d), limits)
            } else if word && e.local@ == "sectPr"@ && (body matches Some(b) && d == b + 1) {
                Ok(start as usize)
            } else {
                insert_offset_from(stream, i + 1, d, body, limits)
            }
        } else if e.kind == XmlEventKind::Empty {
            if word && e.local@ == "sectPr"@ && body == Some(depth) {
                Ok(start as usize)
            } else {
                insert_offset_from(stream, i + 1, depth, body, limits)
            }
        } else if e.kind == XmlEventKind::End {
            if body == Some(depth) && e.local@ == "body"@ {
                Ok(start as usize)
            } else {
                insert_offset_from(stream, i + 1, if depth > 0 { depth - 1 } else { 0 }, body, limits)
            }
        } else if e.kind == XmlEventKind::DocType {
            Err(document_doctype_fault(start))
        } else {
            insert_offset_from(stream, i + 1, depth, body, limits)
        }
    }
}

/// Where new body content goes in `word/document.xml`, given as its events:
/// the byte where the body's own `w:sectPr` starts, or else where the
/// body's closing tag starts.
pub fn document_body_insert_offset(stream: &XmlStream, limits: &DocxLimits) -> (result: DocxResult<usize>)
    ensures
        match (result, insert_offset_from(*stream, 0, 0, None, *limits)) {
            (Ok(offset), Ok(expected)) => offset == expected,
            (Err(x), Err(fault)) => x@ == fault,
            _ => false,
        },
{
    let events = stream.events.as_slice();
    let mut depth: usize = 0;
    let mut body: Option<usize> = None;
    let mut start: u64 = 0;
    let mut i: usize = 0;
    while i < events.len()
        invariant
            i <= events@.len(),
            events@ == stream.events@,
            depth <= i,
            start == prior_position(*stream, i as int),
            insert_offset_from(*stream, 0, 0, None, *limits) == insert_offset_from(
                *stream,
                i as int,
                depth as int,
                match body {
                    Some(b) => Some(b as int),
                    None => None,
                },
                *limits,
            ),
        decreases events@.len() - i,
    {
        let e = &events[i];
        let word = classify_namespace(&e.namespace) == NamespaceKind::Word;
        let local = e.local.as_str();
        if e.kind == XmlEventKind::Eof {
            return Err(
                document_refusal(
                    "TEMPLATE_CONFIGURATION_BODY_MISSING",
                    "word/document.xml has no configurable document body".to_owned(),
                ),
            );
        } else if e.kind == XmlEventKind::Start {
            let next = depth + 1;
            if next > limits.max_xml_depth {
                return Err(document_depth_error(limits, next));
            }
            if word && same_text(local, "body") {
                body = Some(next);
            } else if word && same_text(local, "sectPr") && match body {
                Some(b) => b < next && next - 1 == b,
                None => false,
            } {
                return Ok(start as usize);
            }
            depth = next;
        } else if e.kind == XmlEventKind::Empty {
            if word && same_text(local, "sectPr") && body == Some(depth) {
                return Ok(start as usize);
            }
        } else if e.kind == XmlEventKind::End {
            if body == Some(depth) && same_text(local, "body") {
                return Ok(start as usize);
            }
            depth = if depth > 0 {
                depth - 1
            } else {
                0
            };
        } else if e.kind == XmlEventKind::DocType {
            return Err(DocxError::xml(DOCUMENT_PART, start, "DOCTYPE declarations are not allowed"));
        }
        start = e.position;
        i = i + 1;
    }
    match &stream.read_error {
        Some((position, message)) => Err(DocxError::xml(DOCUMENT_PART, *position, message.as_str())),
        None => Err(
            document_refusal(
                "TEMPLATE_CONFIGURATION_BODY_MISSING",
                "word/document.xml has no configurable document body".to_owned(),
            ),
        ),
    }
}

/// The names of `anchors` that look like template anchors (`ZT_…`) but are
/// none a managed template supports, each once, in order of first
/// appearance.
pub open spec fn unknown_anchor_names(anchors: Seq<TemplateAnchor>) -> Seq<Seq<char>>
    decreases anchors.len(),
{
    if anchors.len() == 0 {
        Seq::empty()
    } else {
        let before = unknown_anchor_names(anchors.drop_last());
        let name = anchors.last().name@;
        if has_prefix(name, "ZT_"@) && !is_supported_anchor(name) && !before.contains(name) {
            before.push(name)
        } else {
            before
        }
    }
}

/// `names` separated by `", "`.
pub open spec fn comma_joined(names: Seq<Seq<char>>) -> Seq<char>
    decreases names.len(),
{
    if names.len() == 0 {
        Seq::empty()
    } else if names.len() == 1 {
        names[0]
    } else {
        comma_joined(names.drop_last()) + ", "@ + names.last()
    }
}

/// The refusal of a template that holds unsupported `ZT_…` anchors, named in
/// character order.
pub open spec fn unknown_anchor_fault(names: Seq<Seq<char>>) -> DocxFault {
    refusal(
        DiagnosticView {
            severity: DiagnosticSeverity::Error,
            code: "TEMPLATE_CONFIGURATION_UNKNOWN_ANCHOR"@,
            part_name: Some(DOCUMENT_PART@),
            message: "template contains unsupported anchor(s): "@ + comma_joined(sort_names(names)),
            suggested_action: Some("请删除不受支持的 ZT_* 标记后重新导入模板。"@),
        },
    )
}

/// Whether `name` is an anchor a managed template supports.
fn supported_anchor(name: &str) -> (supported: bool)
    ensures
        supported == is_supported_anchor(name@),
{
    same_text(name, "ZT_TITLE") || same_text(name, "ZT_QUESTIONS") || same_text(name, "ZT_ANSWERS") || same_text(
        name,
        "ZT_EXPLANATIONS",
    )
}

/// Whether `names` holds `name`.
fn holds_text(names: &Vec<String>, name: &str) -> (found: bool)
    ensures
        found == names_view(names@).contains(name@),
{
    let mut k: usize = 0;
    while k < names.len()
        invariant
            k <= names@.len(),
            forall|j: int| 0 <= j < k ==> names@[j]@ != name@,
        decreases names@.len() - k,
    {
        if same_text(names[k].as_str(), name) {
            assert(names_view(names@)[k as int] == name@);
            return true;
        }
        k = k + 1;
    }
    proof {
        if names_view(names@).contains(name@) {
            let j = choose|j: int| 0 <= j < names_view(names@).len() && names_view(names@)[j] == name@;
            assert(names@[j]@ == name@);
        }
    }
    false
}

/// `names` separated by `", "`, appended to `out`.
pub(crate) fn push_joined(out: &mut String, names: &Vec<String>)
    ensures
        final(out)@ == old(out)@ + comma_joined(names_view(names@)),
{
    let ghost all = names_view(names@);
    let mut k: usize = 0;
    assert(all.subrange(0, 0) =~= Seq::<Seq<char>>::empty());
    while k < names.len()
        invariant
            k <= names@.len(),
            all == names_view(names@),
            out@ == old(out)@ + comma_joined(all.subrange(0, k as int)),
        decreases names@.len() - k,
    {
        let ghost before = out@;
        if k > 0 {
            out.append(", ");
        }
        out.append(names[k].as_str());
        proof {
            let next = all.subrange(0, k + 1);
            assert(next.drop_last() =~= all.subrange(0, k as int));
            if k == 0 {
                assert(comma_joined(next) == next[0]);
                assert(comma_joined(all.subrange(0, 0)) =~= Seq::<char>::empty());
            }
        }
        k = k + 1;
    }
    assert(all.subrange(0, names@.len() as int) =~= all);
}

/// Refuses a template whose anchors include a `ZT_…` name it does not
/// support, naming each such name once, in character order.
pub fn reject_unsupported_anchors(anchors: &[TemplateAnchor]) -> (result: DocxResult<()>)
    ensures
        unknown_anchor_names(anchors@).len() == 0 ==> result is Ok,
        unknown_anchor_names(anchors@).len() > 0 ==> (result matches Err(x) && x@ == unknown_anchor_fault(
            unknown_anchor_names(anchors@),
        )),
{
    let mut unknown: Vec<String> = Vec::new();
    let mut i: usize = 0;
    assert(anchors@.subrange(0, 0) =~= Seq::<TemplateAnchor>::empty());
    while i < anchors.len()
        invariant
            i <= anchors@.len(),
            names_view(unknown@) == unknown_anchor_names(anchors@.subrange(0, i as int)),
        decreases anchors@.len() - i,
    {
        let name = anchors[i].name.as_str();
        assert(anchors@.subrange(0, i + 1).drop_last() =~= anchors@.subrange(0, i as int));
        let prefixed = starts_with_chars(chars_of(name).as_slice(), chars_of("ZT_").as_slice());
        if prefixed && !supported_anchor(name) && !holds_text(&unknown, name) {
            let ghost before = unknown@;
            unknown.push(name.to_owned());
            assert(names_view(unknown@) =~= names_view(before).push(name@));
        }
        i = i + 1;
    }
    assert(anchors@.subrange(0, anchors@.len() as int) =~= anchors@);
    if unknown.len() == 0 {
        return Ok(());
    }
    let ghost names = names_view(unknown@);
    let sorted = sort_name_list(unknown);
    let mut message = "template contains unsupported anchor(s): ".to_owned();
    push_joined(&mut message, &sorted);
    let d = Diagnostic::new(
        DiagnosticSeverity::Error,
        "TEMPLATE_CONFIGURATION_UNKNOWN_ANCHOR",
        Some(DOCUMENT_PART.to_owned()),
        message,
        Some("请删除不受支持的 ZT_* 标记后重新导入模板。".to_owned()),
    );
    let found = vec![d];
    assert(diagnostics_view(found@) =~= seq![
        DiagnosticView {
            severity: DiagnosticSeverity::Error,
            code: "TEMPLATE_CONFIGURATION_UNKNOWN_ANCHOR"@,
            part_name: Some(DOCUMENT_PART@),
            message: "template contains unsupported anchor(s): "@ + comma_joined(sort_names(names)),
            suggested_action: Some("请删除不受支持的 ZT_* 标记后重新导入模板。"@),
        }
    ]);
    Err(DocxError::rejected(found))
}

/// The position in `paragraphs` of the first paragraph with index `index`.
pub open spec fn paragraph_position(paragraphs: Seq<Paragraph>, index: usize) -> Option<int> {
    if exists|k: int| 0 <= k < paragraphs.len() && paragraphs[k].index == index {
        Some(
            choose|k: int|
                0 <= k < paragraphs.len() && paragraphs[k].index == index && forall|j: int|
                    0 <= j < k ==> paragraphs[j].index != index,
        )
    } else {
        None
    }
}

/// The position in `paragraphs` of the first paragraph with index `index`.
fn find_paragraph(paragraphs: &[Paragraph], index: usize) -> (found: Option<usize>)
    ensures
        match found {
            Some(k) => k < paragraphs@.len() && paragraphs@[k as int].index == index && forall|j: int|
                0 <= j < k ==> paragraphs@[j].index != index,
            None => forall|j: int| 0 <= j < paragraphs@.len() ==> paragraphs@[j].index != index,
        },
{
    let mut k: usize = 0;
    while k < paragraphs.len()
        invariant
            k <= paragraphs@.len(),
            forall|j: int| 0 <= j < k ==> paragraphs@[j].index != index,
        decreases paragraphs@.len() - k,
    {
        if paragraphs[k].index == index {
            return Some(k);
        }
        k = k + 1;
    }
    None
}

/// The refusal of a questions range whose start comes after its end.
pub open spec fn range_reversed_fault() -> DocxFault {
    refusal(
        document_error(
            "TEMPLATE_CONFIGURATION_RANGE_REVERSED"@,
            "the questions range start must not come after its end"@,
        ),
    )
}

/// The refusal of a questions range whose start or end paragraph (named by
/// `lead`) does not exist.
pub open spec fn range_missing_fault(code: Seq<char>, lead: Seq<char>, index: usize) -> DocxFault {
    refusal(document_error(code, lead + crate::text::decimal(index as nat) + " does not exist"@))
}

/// The first and last paragraphs of a questions range, by paragraph index:
/// their positions in `paragraphs`.
pub fn selected_paragraph_range(start_paragraph: usize, end_paragraph: usize, paragraphs: &[Paragraph]) -> (result:
    DocxResult<(usize, usize)>)
    ensures
        start_paragraph > end_paragraph ==> (result matches Err(x) && x@ == range_reversed_fault()),
        start_paragraph <= end_paragraph ==> match result {
            Ok((s, e)) => s < paragraphs@.len() && e < paragraphs@.len() && paragraphs@[s as int].index
                == start_paragraph && paragraphs@[e as int].index == end_paragraph && (forall|j: int|
                0 <= j < s ==> paragraphs@[j].index != start_paragraph) && (forall|j: int|
                0 <= j < e ==> paragraphs@[j].index != end_paragraph),
            Err(x) => if forall|j: int| 0 <= j < paragraphs@.len() ==> paragraphs@[j].index != start_paragraph {
                x@ == range_missing_fault(
                    "TEMPLATE_CONFIGURATION_RANGE_START_NOT_FOUND"@,
                    "questions range start paragraph "@,
                    start_paragraph,
                )
            } else {
                (forall|j: int| 0 <= j < paragraphs@.len() ==> paragraphs@[j].index != end_paragraph)
                    && x@ == range_missing_fault(
                    "TEMPLATE_CONFIGURATION_RANGE_END_NOT_FOUND"@,
                    "questions range end paragraph "@,
                    end_paragraph,
                )
            },
        },
{
    if start_paragraph > end_paragraph {
        return Err(
            document_refusal(
                "TEMPLATE_CONFIGURATION_RANGE_REVERSED",
                "the questions range start must not come after its end".to_owned(),
            ),
        );
    }
    let start = match find_paragraph(paragraphs, start_paragraph) {
        Some(k) => k,
        None => {
            let mut message = "questions range start paragraph ".to_owned();
            crate::text::push_decimal(&mut message, start_paragraph as u64);
            message.append(" does not exist");
            return Err(document_refusal("TEMPLATE_CONFIGURATION_RANGE_START_NOT_FOUND", message));
        },
    };
    let end = match find_paragraph(paragraphs, end_paragraph) {
        Some(k) => k,
        None => {
            let mut message = "questions range end paragraph ".to_owned();
            crate::text::push_decimal(&mut message, end_paragraph as u64);
            message.append(" does not exist");
            return Err(document_refusal("TEMPLATE_CONFIGURATION_RANGE_END_NOT_FOUND", message));
        },
    };
    Ok((start, end))
}

/// The paragraph that marks a region `anchor_name`: its visible text is
/// `{{anchor_name}}`.
pub open spec fn spec_marker_paragraph(namespace: Seq<char>, anchor_name: Seq<char>) -> Seq<char> {
    "<w:p xmlns:w=\""@ + namespace + "\"><w:r><w:t>{{"@ + anchor_name + "}}</w:t></w:r></w:p>"@
}

/// The paragraph that marks a region `anchor_name`.
pub fn marker_paragraph(namespace: &str, anchor_name: &str) -> (marker: String)
    ensures
        marker@ == spec_marker_paragraph(namespace@, anchor_name@),
{
    let mut marker = "<w:p xmlns:w=\"".to_owned();
    marker.append(namespace);
    marker.append("\"><w:r><w:t>{{");
    marker.append(anchor_name);
    marker.append("}}</w:t></w:r></w:p>");
    marker
}

/// The empty content control tagged `anchor_name`.
pub open spec fn spec_content_control(namespace: Seq<char>, anchor_name: Seq<char>) -> Seq<char> {
    "<w:sdt xmlns:w=\""@ + namespace + "\"><w:sdtPr><w:tag w:val=\""@ + anchor_name
        + "\"/></w:sdtPr><w:sdtContent><w:p/></w:sdtContent></w:sdt>"@
}

/// The empty content control tagged `anchor_name`.
pub fn content_control(namespace: &str, anchor_name: &str) -> (control: String)
    ensures
        control@ == spec_content_control(namespace@, anchor_name@),
{
    let mut control = "<w:sdt xmlns:w=\"".to_owned();
    control.append(namespace);
    control.append("\"><w:sdtPr><w:tag w:val=\"");
    control.append(anchor_name);
    control.append("\"/></w:sdtPr><w:sdtContent><w:p/></w:sdtContent></w:sdt>");
    control
}

/// Where a template region goes.
#[derive(Clone, Debug, PartialEq, Eq)]
pub enum TemplateRegionPlacement {
    /// In place of the paragraph with this index.
    ReplaceParagraph(usize),
    /// In place of the paragraphs from `start_paragraph` to `end_paragraph`.
    ReplaceRange { start_paragraph: usize, end_paragraph: usize },
    /// After the paragraph with this index.
    AfterParagraph(usize),
    /// At the end of the body, before its section properties.
    DocumentEnd,
}

/// The paragraphs whose styles the question roles take, by index.
#[derive(Clone, Debug, Default, PartialEq, Eq)]
pub struct TemplateStyleSelection {
    pub section_heading: Option<usize>,
    pub question: Option<usize>,
    pub option: Option<usize>,
    pub answer: Option<usize>,
    pub explanation: Option<usize>,
}

/// How to turn a paper into a template.
#[derive(Clone, Debug, PartialEq, Eq)]
pub struct TemplateRegionConfiguration {
    pub questions: TemplateRegionPlacement,
    pub styles: TemplateStyleSelection,
    /// `None` keeps an existing title anchor and otherwise leaves the template
    /// title untouched.
    pub title: Option<TemplateRegionPlacement>,
}

/// A range of paragraphs, by index.
#[derive(Clone, Debug, PartialEq, Eq)]
pub struct TemplateSourceRange {
    pub start_paragraph_index: usize,
    pub end_paragraph_index: usize,
}

/// The paragraph and run properties one paragraph lends to a role.
#[derive(Clone, Debug, PartialEq, Eq)]
pub struct ParagraphStylePrototype {
    pub source_paragraph_index: usize,
    pub paragraph_properties: Vec<u8>,
    pub run_properties: Vec<u8>,
}

/// The style of each role, kept by role name in character order, each name
/// once.
#[derive(Clone, Debug, PartialEq, Eq)]
pub struct TemplateStyleProfile {
    pub schema_version: u32,
    pub source_range: Option<TemplateSourceRange>,
    pub roles: Vec<(String, ParagraphStylePrototype)>,
}

/// One paragraph a configuration can point at.
#[derive(Clone, Debug, PartialEq, Eq)]
pub struct TemplateConfigurationParagraph {
    pub index: usize,
    pub text: String,
}

/// What a paper offers for configuration.
#[derive(Clone, Debug, PartialEq, Eq)]
pub struct TemplateConfigurationPreview {
    pub paragraphs: Vec<TemplateConfigurationParagraph>,
    pub has_questions_anchor: bool,
    pub has_title_anchor: bool,
}

/// A replacement of `span` of the main document by `bytes`.
pub struct XmlEdit {
    pub span: ByteSpan,
    pub bytes: Vec<u8>,
    pub label: &'static str,
}

/// An edit as plain values.
pub struct EditView {
    pub span: ByteSpan,
    pub bytes: Seq<u8>,
    pub label: Seq<char>,
}

/// Edits as plain values.
pub open spec fn edits_view(edits: Seq<XmlEdit>) -> Seq<EditView> {
    edits.map_values(|e: XmlEdit| EditView { span: e.span, bytes: e.bytes@, label: e.label@ })
}

/// Whether edit `a` sorts before or with edit `b`: by start, then by end.
pub open spec fn edit_not_after(a: EditView, b: EditView) -> bool {
    a.span.start < b.span.start || (a.span.start == b.span.start && a.span.end <= b.span.end)
}

/// `e` inserted into the ordered `edits` after every edit that sorts before
/// or with it.
pub open spec fn insert_edit(edits: Seq<EditView>, e: EditView) -> Seq<EditView>
    decreases edits.len(),
{
    if edits.len() == 0 {
        seq![e]
    } else if edit_not_after(edits.last(), e) {
        edits.push(e)
    } else {
        insert_edit(edits.drop_last(), e).push(edits.last())
    }
}

/// `edits` in order of start, then end, keeping the order of equal ones.
pub open spec fn sort_edits(edits: Seq<EditView>) -> Seq<EditView>
    decreases edits.len(),
{
    if edits.len() == 0 {
        edits
    } else {
        insert_edit(sort_edits(edits.drop_last()), edits.last())
    }
}

/// The first edit whose span is reversed or runs past the document.
pub open spec fn first_invalid_edit(edits: Seq<EditView>, len: int) -> Option<int> {
    if exists|k: int| 0 <= k < edits.len() && (edits[k].span.start > edits[k].span.end || edits[k].span.end > len) {
        Some(
            choose|k: int|
                0 <= k < edits.len() && (edits[k].span.start > edits[k].span.end || edits[k].span.end > len)
                    && forall|j: int|
                    0 <= j < k ==> !(edits[j].span.start > edits[j].span.end || edits[j].span.end > len),
        )
    } else {
        None
    }
}

/// Whether two neighbouring edits in order clash: they overlap, or insert
/// at the same point.
pub open spec fn edits_clash(left: EditView, right: EditView) -> bool {
    left.span.end > right.span.start || (left.span.start >= left.span.end && right.span.start >= right.span.end
        && left.span.start == right.span.start)
}

/// Whether the edits at `k` and `k + 1` clash.
pub open spec fn clash_at(sorted: Seq<EditView>, k: int) -> bool {
    edits_clash(sorted[k], sorted[k + 1])
}

/// The first neighbouring pair of the ordered edits that clashes.
pub open spec fn first_clash(sorted: Seq<EditView>) -> Option<int> {
    if exists|k: int| 0 <= k && k + 1 < sorted.len() && #[trigger] clash_at(sorted, k) {
        Some(
            choose|k: int|
                0 <= k && k + 1 < sorted.len() && #[trigger] clash_at(sorted, k) && forall|j: int|
                    0 <= j < k ==> !#[trigger] clash_at(sorted, j),
        )
    } else {
        None
    }
}

/// The refusal of an edit with a bad span.
pub open spec fn span_invalid_fault(label: Seq<char>) -> DocxFault {
    refusal(document_error("TEMPLATE_CONFIGURATION_SPAN_INVALID"@, label + " produced an invalid XML range"@))
}

/// The refusal of two clashing regions.
pub open spec fn regions_overlap_fault(left: Seq<char>, right: Seq<char>) -> DocxFault {
    refusal(
        DiagnosticView {
            severity: DiagnosticSeverity::Error,
            code: "TEMPLATE_CONFIGURATION_REGIONS_OVERLAP"@,
            part_name: Some(DOCUMENT_PART@),
            message: "configured regions '"@ + left + "' and '"@ + right + "' overlap"@,
            suggested_action: Some("请为试卷标题和题目内容选择不同位置。"@),
        },
    )
}

/// Inserts `e` into the ordered `edits` after every edit that sorts before
/// or with it.
fn insert_edit_sorted(edits: &mut Vec<XmlEdit>, e: XmlEdit)
    ensures
        edits_view(final(edits)@) == insert_edit(edits_view(old(edits)@), EditView { span: e.span, bytes: e.bytes@, label: e.label@ }),
    decreases old(edits)@.len(),
{
    let ghost before = edits@;
    let ghost ev = EditView { span: e.span, bytes: e.bytes@, label: e.label@ };
    if edits.len() == 0 {
        edits.push(e);
        assert(edits_view(edits@) =~= seq![ev]);
        return;
    }
    let n = edits.len();
    let last_span = edits[n - 1].span;
    assert(edits_view(before).last().span == last_span);
    if last_span.start < e.span.start || (last_span.start == e.span.start && last_span.end <= e.span.end) {
        edits.push(e);
        assert(edits_view(edits@) =~= edits_view(before).push(ev));
        return;
    }
    let last = edits.pop().unwrap();
    assert(edits_view(edits@) =~= edits_view(before).drop_last());
    insert_edit_sorted(edits, e);
    let ghost middle = edits@;
    edits.push(last);
    assert(edits_view(edits@) =~= edits_view(middle).push(EditView { span: last.span, bytes: last.bytes@, label: last.label@ }));
}

/// Checks that every edit lies within a document of `document_len` bytes,
/// orders them by start and end (keeping the order of equal ones), and
/// checks that no two neighbours overlap or insert at the same point.
pub fn validate_edits(edits: &mut Vec<XmlEdit>, document_len: usize) -> (result: DocxResult<()>)
    ensures
        ({
            let given = edits_view(old(edits)@);
            match first_invalid_edit(given, document_len as int) {
                Some(k) => result matches Err(x) && x@ == span_invalid_fault(given[k].label),
                None => {
                    let sorted = sort_edits(given);
                    &&& edits_view(final(edits)@) == sorted
                    &&& match first_clash(sorted) {
                        Some(k) => result matches Err(x) && x@ == regions_overlap_fault(
                            sorted[k].label,
                            sorted[k + 1].label,
                        ),
                        None => result is Ok,
                    }
                },
            }
        }),
{
    let ghost given = edits_view(edits@);
    let mut i: usize = 0;
    while i < edits.len()
        invariant
            i <= edits@.len(),
            given == edits_view(edits@),
            edits@ == old(edits)@,
            forall|j: int|
                0 <= j < i ==> !(given[j].span.start > given[j].span.end || given[j].span.end > document_len),
        decreases edits@.len() - i,
    {
        let span = edits[i].span;
        if span.start > span.end || span.end > document_len {
            let mut message = edits[i].label.to_owned();
            message.append(" produced an invalid XML range");
            assert(given[i as int].label == edits@[i as int].label@);
            return Err(document_refusal("TEMPLATE_CONFIGURATION_SPAN_INVALID", message));
        }
        i = i + 1;
    }
    let mut rest: Vec<XmlEdit> = Vec::new();
    std::mem::swap(&mut rest, edits);
    let total = rest.len();
    let mut taken: usize = 0;
    assert(given.subrange(0, 0) =~= Seq::<EditView>::empty());
    assert(edits_view(edits@) =~= Seq::<EditView>::empty());
    while rest.len() > 0
        invariant
            forall|j: int|
                0 <= j < given.len() ==> !(given[j].span.start > given[j].span.end || given[j].span.end > document_len),
            given == edits_view(old(edits)@),
            total == given.len(),
            taken + rest@.len() == given.len(),
            edits_view(rest@) == given.subrange(taken as int, given.len() as int),
            edits_view(edits@) == sort_edits(given.subrange(0, taken as int)),
        decreases rest@.len(),
    {
        let ghost before = rest@;
        let e = rest.remove(0);
        assert(edits_view(before)[0] == given.subrange(taken as int, given.len() as int)[0]);
        assert(rest@ =~= before.subrange(1, before.len() as int));
        assert(edits_view(rest@) =~= edits_view(before).subrange(1, before.len() as int));
        assert(edits_view(rest@) =~= given.subrange(taken + 1, given.len() as int));
        assert(given.subrange(0, taken + 1).drop_last() =~= given.subrange(0, taken as int));
        insert_edit_sorted(edits, e);
        taken = taken + 1;
    }
    assert(given.subrange(0, given.len() as int) =~= given);
    let ghost sorted = edits_view(edits@);
    let mut k: usize = 0;
    while k < edits.len() && edits.len() - k > 1
        invariant
            forall|j: int|
                0 <= j < given.len() ==> !(given[j].span.start > given[j].span.end || given[j].span.end > document_len),
            given == edits_view(old(edits)@),
            sorted == sort_edits(given),
            sorted == edits_view(edits@),
            k <= edits@.len(),
            forall|j: int| 0 <= j < k && j + 1 < sorted.len() ==> !#[trigger] clash_at(sorted, j),
        decreases edits@.len() - k,
    {
        let left = edits[k].span;
        let right = edits[k + 1].span;
        let same_insertion = left.start >= left.end && right.start >= right.end && left.start == right.start;
        assert(sorted[k as int].span == left && sorted[k + 1].span == right);
        assert(clash_at(sorted, k as int) == (left.end > right.start || same_insertion));
        if left.end > right.start || same_insertion {
            let mut message = "configured regions '".to_owned();
            message.append(edits[k].label);
            message.append("' and '");
            message.append(edits[k + 1].label);
            message.append("' overlap");
            let d = Diagnostic::new(
                DiagnosticSeverity::Error,
                "TEMPLATE_CONFIGURATION_REGIONS_OVERLAP",
                Some(DOCUMENT_PART.to_owned()),
                message,
                Some("请为试卷标题和题目内容选择不同位置。".to_owned()),
            );
            let found = vec![d];
            proof {
                assert(clash_at(sorted, k as int));
                let c = choose|c: int|
                    0 <= c && c + 1 < sorted.len() && #[trigger] clash_at(sorted, c) && forall|j: int|
                        0 <= j < c ==> !#[trigger] clash_at(sorted, j);
                assert(first_clash(sorted) == Some(c));
                if c < k {
                    assert(!clash_at(sorted, c));
                }
                if c > k {
                    assert(!clash_at(sorted, k as int));
                }
                assert(c == k);
                assert(first_invalid_edit(given, document_len as int) is None);
            }
            assert(diagnostics_view(found@) =~= seq![
                DiagnosticView {
                    severity: DiagnosticSeverity::Error,
                    code: "TEMPLATE_CONFIGURATION_REGIONS_OVERLAP"@,
                    part_name: Some(DOCUMENT_PART@),
                    message: "configured regions '"@ + sorted[k as int].label + "' and '"@ + sorted[k + 1].label + "' overlap"@,
                    suggested_action: Some("请为试卷标题和题目内容选择不同位置。"@),
                }
            ]);
            return Err(DocxError::rejected(found));
        }
        k = k + 1;
    }
    Ok(())
}

/// Whether some anchor's container overlaps the bytes `start..end`.
pub open spec fn overlaps_anchor(anchors: Seq<TemplateAnchor>, start: int, end: int) -> bool {
    exists|k: int|
        0 <= k < anchors.len() && #[trigger] anchors[k].container_span.start < end && start
            < anchors[k].container_span.end
}

/// Whether some anchor's container holds `span`.
pub open spec fn inside_anchor(anchors: Seq<TemplateAnchor>, span: ByteSpan) -> bool {
    exists|k: int|
        0 <= k < anchors.len() && #[trigger] anchors[k].container_span.start <= span.start
            && span.end <= anchors[k].container_span.end
}

/// Whether some anchor's container overlaps the bytes `start..end`.
fn any_anchor_overlaps(anchors: &[TemplateAnchor], start: usize, end: usize) -> (found: bool)
    ensures
        found == overlaps_anchor(anchors@, start as int, end as int),
{
    let mut k: usize = 0;
    while k < anchors.len()
        invariant
            k <= anchors@.len(),
            forall|j: int|
                0 <= j < k ==> !(#[trigger] anchors@[j].container_span.start < end && start
                    < anchors@[j].container_span.end),
        decreases anchors@.len() - k,
    {
        let c = anchors[k].container_span;
        if c.start < end && start < c.end {
            return true;
        }
        k = k + 1;
    }
    false
}

/// Whether some anchor's container holds `span`.
pub(crate) fn any_anchor_contains(anchors: &[TemplateAnchor], span: ByteSpan) -> (found: bool)
    ensures
        found == inside_anchor(anchors@, span),
{
    let mut k: usize = 0;
    while k < anchors.len()
        invariant
            k <= anchors@.len(),
            forall|j: int|
                0 <= j < k ==> !(#[trigger] anchors@[j].container_span.start <= span.start && span.end
                    <= anchors@[j].container_span.end),
        decreases anchors@.len() - k,
    {
        if anchors[k].container_span.contains(span) {
            return true;
        }
        k = k + 1;
    }
    false
}

/// Whether every paragraph's span lies within `len` bytes, in order.
pub open spec fn spans_within(paragraphs: Seq<Paragraph>, len: int) -> bool {
    forall|k: int|
        0 <= k < paragraphs.len() ==> #[trigger] paragraphs[k].source_span.start <= paragraphs[k].source_span.end
            <= len
}

/// The bytes of a string.
fn string_bytes(s: String) -> (bytes: Vec<u8>)
    ensures
        bytes@ == vstd::utf8::encode_utf8(s@),
{
    vstd::slice::slice_to_vec(s.as_str().as_bytes())
}

/// The refusal of a range placement for another region than the questions.
pub open spec fn range_kind_fault() -> DocxFault {
    refusal(
        document_error(
            "TEMPLATE_CONFIGURATION_RANGE_KIND_UNSUPPORTED"@,
            "only the questions region can replace a paragraph range"@,
        ),
    )
}

/// The refusal of a questions range that holds an existing region.
pub open spec fn range_anchor_fault() -> DocxFault {
    refusal(
        document_error(
            "TEMPLATE_CONFIGURATION_RANGE_CONTAINS_ANCHOR"@,
            "the selected questions range contains an existing template region"@,
        ),
    )
}

/// The refusal of a placement at a paragraph index that does not exist.
pub open spec fn paragraph_missing_fault(index: usize) -> DocxFault {
    refusal(
        document_error(
            "TEMPLATE_CONFIGURATION_PARAGRAPH_NOT_FOUND"@,
            "paragraph "@ + crate::text::decimal(index as nat) + " no longer exists in the managed template"@,
        ),
    )
}

/// The refusal of a placement at a paragraph inside an existing region.
pub open spec fn paragraph_anchor_fault(index: usize) -> DocxFault {
    refusal(
        document_error(
            "TEMPLATE_CONFIGURATION_PARAGRAPH_IS_ANCHOR"@,
            "paragraph "@ + crate::text::decimal(index as nat) + " is already inside a template replacement region"@,
        ),
    )
}

/// A refusal naming paragraph `index` between `lead` and `tail`.
fn paragraph_refusal(code: &'static str, index: usize, tail: &str) -> (error: DocxError)
    ensures
        error@ == refusal(document_error(code@, "paragraph "@ + crate::text::decimal(index as nat) + tail@)),
{
    let mut message = "paragraph ".to_owned();
    crate::text::push_decimal(&mut message, index as u64);
    message.append(tail);
    document_refusal(code, message)
}

/// Whether `result` is the edit that puts the questions region
/// `anchor_name` over the paragraphs `start_paragraph..=end_paragraph`: an
/// empty content control over their bytes; refused for another region, a
/// bad range, or a range that holds an existing region.
pub open spec fn range_edit_outcome(
    result: DocxResult<XmlEdit>,
    start_paragraph: usize,
    end_paragraph: usize,
    anchor_name: Seq<char>,
    namespace: Seq<char>,
    paragraphs: Seq<Paragraph>,
    anchors: Seq<TemplateAnchor>,
) -> bool {
    if anchor_name != "ZT_QUESTIONS"@ {
        result matches Err(x) && x@ == range_kind_fault()
    } else {
        match selected_range_spec(start_paragraph, end_paragraph, paragraphs) {
            Err(fault) => result matches Err(x) && x@ == fault,
            Ok((a, b)) => if overlaps_anchor(
                anchors,
                paragraphs[a].source_span.start as int,
                paragraphs[b].source_span.end as int,
            ) {
                result matches Err(x) && x@ == range_anchor_fault()
            } else {
                result matches Ok(edit) && edit.span == ByteSpan {
                    start: paragraphs[a].source_span.start,
                    end: paragraphs[b].source_span.end,
                } && edit.bytes@ == vstd::utf8::encode_utf8(spec_content_control(namespace, anchor_name))
                    && edit.label@ == anchor_name
            },
        }
    }
}

/// The edit that puts the questions region over a range of paragraphs.
fn range_edit(
    start_paragraph: usize,
    end_paragraph: usize,
    anchor_name: &'static str,
    namespace: &str,
    paragraphs: &[Paragraph],
    anchors: &[TemplateAnchor],
) -> (result: DocxResult<XmlEdit>)
    ensures
        range_edit_outcome(result, start_paragraph, end_paragraph, anchor_name@, namespace@, paragraphs@, anchors@),
{
    if !same_text(anchor_name, "ZT_QUESTIONS") {
        return Err(
            document_refusal(
                "TEMPLATE_CONFIGURATION_RANGE_KIND_UNSUPPORTED",
                "only the questions region can replace a paragraph range".to_owned(),
            ),
        );
    }
    let (a, b) = match selected_paragraph_range(start_paragraph, end_paragraph, paragraphs) {
        Err(x) => return Err(x),
        Ok(found) => found,
    };
    proof {
        lemma_selected_range(start_paragraph, end_paragraph, paragraphs@, a as int, b as int);
    }
    let start = paragraphs[a].source_span.start;
    let end = paragraphs[b].source_span.end;
    if any_anchor_overlaps(anchors, start, end) {
        return Err(
            document_refusal(
                "TEMPLATE_CONFIGURATION_RANGE_CONTAINS_ANCHOR",
                "the selected questions range contains an existing template region".to_owned(),
            ),
        );
    }
    Ok(
        XmlEdit {
            span: ByteSpan::new(start, end),
            bytes: string_bytes(content_control(namespace, anchor_name)),
            label: anchor_name,
        },
    )
}

/// Whether `result` is the edit that puts the region `anchor_name` in place
/// of (or, with `after`, after) the paragraph with index `index`: a marker
/// paragraph, which for a replaced title follows the paragraph's kept
/// floating objects; refused for a missing paragraph or one inside an
/// existing region.
pub open spec fn paragraph_edit_outcome(
    result: DocxResult<XmlEdit>,
    index: usize,
    after: bool,
    anchor_name: Seq<char>,
    namespace: Seq<char>,
    document_xml: Seq<u8>,
    paragraphs: Seq<Paragraph>,
    anchors: Seq<TemplateAnchor>,
    limits: DocxLimits,
) -> bool {
    let marker = vstd::utf8::encode_utf8(spec_marker_paragraph(namespace, anchor_name));
    match paragraph_position(paragraphs, index) {
        None => result matches Err(x) && x@ == paragraph_missing_fault(index),
        Some(k) => {
            let span = paragraphs[k].source_span;
            if inside_anchor(anchors, span) {
                result matches Err(x) && x@ == paragraph_anchor_fault(index)
            } else if after {
                result matches Ok(edit) && edit.span == ByteSpan { start: span.end, end: span.end } && edit.bytes@
                    == marker && edit.label@ == anchor_name
            } else if anchor_name != "ZT_TITLE"@ {
                result matches Ok(edit) && edit.span == span && edit.bytes@ == marker && edit.label@ == anchor_name
            } else {
                exists|kept: DocxResult<Option<Vec<u8>>>, stream: XmlStream|
                    stream.source_len == span.end - span.start && #[trigger] preserved_outcome(
                        kept,
                        stream,
                        document_xml.subrange(span.start as int, span.end as int),
                        namespace,
                        limits,
                    ) && match kept {
                        Err(e) => result matches Err(x) && x@ == e@,
                        Ok(None) => result matches Ok(edit) && edit.span == span && edit.bytes@ == marker
                            && edit.label@ == anchor_name,
                        Ok(Some(p)) => result matches Ok(edit) && edit.span == span && edit.bytes@ == p@ + marker
                            && edit.label@ == anchor_name,
                    }
            }
        },
    }
}

/// The edit that puts a region in place of, or after, one paragraph.
fn paragraph_edit(
    index: usize,
    after: bool,
    anchor_name: &'static str,
    namespace: &str,
    document_xml: &[u8],
    paragraphs: &[Paragraph],
    anchors: &[TemplateAnchor],
    limits: &DocxLimits,
) -> (result: DocxResult<XmlEdit>)
    requires
        spans_within(paragraphs@, document_xml@.len() as int),
    ensures
        paragraph_edit_outcome(
            result,
            index,
            after,
            anchor_name@,
            namespace@,
            document_xml@,
            paragraphs@,
            anchors@,
            *limits,
        ),
{
    let k = match find_paragraph(paragraphs, index) {
        None => {
            return Err(
                paragraph_refusal(
                    "TEMPLATE_CONFIGURATION_PARAGRAPH_NOT_FOUND",
                    index,
                    " no longer exists in the managed template",
                ),
            );
        },
        Some(k) => k,
    };
    proof {
        lemma_first_position(paragraphs@, index, k as int);
    }
    let span = paragraphs[k].source_span;
    if any_anchor_contains(anchors, span) {
        return Err(
            paragraph_refusal(
                "TEMPLATE_CONFIGURATION_PARAGRAPH_IS_ANCHOR",
                index,
                " is already inside a template replacement region",
            ),
        );
    }
    let marker = string_bytes(marker_paragraph(namespace, anchor_name));
    if after {
        return Ok(XmlEdit { span: ByteSpan::new(span.end, span.end), bytes: marker, label: anchor_name });
    }
    if !same_text(anchor_name, "ZT_TITLE") {
        return Ok(XmlEdit { span, bytes: marker, label: anchor_name });
    }
    assert(span.start <= span.end <= document_xml@.len());
    let source = vstd::slice::slice_subrange(document_xml, span.start, span.end);
    let kept = preserve_floating_object_paragraph(source, namespace, limits);
    let ghost kept_view = kept;
    let ghost st = choose|stream: XmlStream|
        stream.source_len == source@.len() && #[trigger] preserved_outcome(kept_view, stream, source@, namespace@, *limits);
    assert(source@ == document_xml@.subrange(span.start as int, span.end as int));
    assert(preserved_outcome(kept_view, st, source@, namespace@, *limits));
    match kept {
        Err(x) => Err(x),
        Ok(None) => Ok(XmlEdit { span, bytes: marker, label: anchor_name }),
        Ok(Some(mut preserved)) => {
            let ghost p = preserved@;
            let mut m = marker;
            preserved.append(&mut m);
            Ok(XmlEdit { span, bytes: preserved, label: anchor_name })
        },
    }
}

/// The edit a placement of the region `anchor_name` makes: at the end of the
/// body, a marker paragraph at the body's insertion point; over a questions
/// range, an empty content control; in place of or after one paragraph, a
/// marker paragraph.
pub fn placement_edit(
    placement: &TemplateRegionPlacement,
    anchor_name: &'static str,
    namespace: &str,
    body_insert_offset: usize,
    document_xml: &[u8],
    paragraphs: &[Paragraph],
    anchors: &[TemplateAnchor],
    limits: &DocxLimits,
) -> (result: DocxResult<XmlEdit>)
    requires
        spans_within(paragraphs@, document_xml@.len() as int),
    ensures
        match *placement {
            TemplateRegionPlacement::DocumentEnd => result matches Ok(edit) && edit.span == ByteSpan {
                start: body_insert_offset,
                end: body_insert_offset,
            } && edit.bytes@ == vstd::utf8::encode_utf8(spec_marker_paragraph(namespace@, anchor_name@))
                && edit.label@ == anchor_name@,
            TemplateRegionPlacement::ReplaceRange { start_paragraph, end_paragraph } => range_edit_outcome(
                result,
                start_paragraph,
                end_paragraph,
                anchor_name@,
                namespace@,
                paragraphs@,
                anchors@,
            ),
            TemplateRegionPlacement::ReplaceParagraph(index) => paragraph_edit_outcome(
                result,
                index,
                false,
                anchor_name@,
                namespace@,
                document_xml@,
                paragraphs@,
                anchors@,
                *limits,
            ),
            TemplateRegionPlacement::AfterParagraph(index) => paragraph_edit_outcome(
                result,
                index,
                true,
                anchor_name@,
                namespace@,
                document_xml@,
                paragraphs@,
                anchors@,
                *limits,
            ),
        },
{
    match placement {
        TemplateRegionPlacement::DocumentEnd => Ok(
            XmlEdit {
                span: ByteSpan::new(body_insert_offset, body_insert_offset),
                bytes: string_bytes(marker_paragraph(namespace, anchor_name)),
                label: anchor_name,
            },
        ),
        TemplateRegionPlacement::ReplaceRange { start_paragraph, end_paragraph } => range_edit(
            *start_paragraph,
            *end_paragraph,
            anchor_name,
            namespace,
            paragraphs,
            anchors,
        ),
        TemplateRegionPlacement::ReplaceParagraph(index) => paragraph_edit(
            *index,
            false,
            anchor_name,
            namespace,
            document_xml,
            paragraphs,
            anchors,
            limits,
        ),
        TemplateRegionPlacement::AfterParagraph(index) => paragraph_edit(
            *index,
            true,
            anchor_name,
            namespace,
            document_xml,
            paragraphs,
            anchors,
            limits,
        ),
    }
}

/// The positions of the first and last paragraphs of a questions range, as
/// [`selected_paragraph_range`] finds them.
pub open spec fn selected_range_spec(start_paragraph: usize, end_paragraph: usize, paragraphs: Seq<Paragraph>) -> Result<
    (int, int),
    DocxFault,
> {
    if start_paragraph > end_paragraph {
        Err(range_reversed_fault())
    } else {
        match (paragraph_position(paragraphs, start_paragraph), paragraph_position(paragraphs, end_paragraph)) {
            (None, _) => Err(
                range_missing_fault(
                    "TEMPLATE_CONFIGURATION_RANGE_START_NOT_FOUND"@,
                    "questions range start paragraph "@,
                    start_paragraph,
                ),
            ),
            (Some(_), None) => Err(
                range_missing_fault(
                    "TEMPLATE_CONFIGURATION_RANGE_END_NOT_FOUND"@,
                    "questions range end paragraph "@,
                    end_paragraph,
                ),
            ),
            (Some(a), Some(b)) => Ok((a, b)),
        }
    }
}

/// The first position of a paragraph index is the one a search finds.
pub proof fn lemma_first_position(paragraphs: Seq<Paragraph>, index: usize, k: int)
    requires
        0 <= k < paragraphs.len(),
        paragraphs[k].index == index,
        forall|j: int| 0 <= j < k ==> paragraphs[j].index != index,
    ensures
        paragraph_position(paragraphs, index) == Some(k),
{
    let c = choose|c: int|
        0 <= c < paragraphs.len() && paragraphs[c].index == index && forall|j: int|
            0 <= j < c ==> paragraphs[j].index != index;
    assert(0 <= c < paragraphs.len() && paragraphs[c].index == index);
    if c < k {
        assert(paragraphs[c].index != index);
    }
    if c > k {
        assert(paragraphs[k].index != index);
    }
}

/// What [`selected_paragraph_range`] found is what [`selected_range_spec`]
/// says.
proof fn lemma_selected_range(start_paragraph: usize, end_paragraph: usize, paragraphs: Seq<Paragraph>, a: int, b: int)
    requires
        start_paragraph <= end_paragraph,
        0 <= a < paragraphs.len(),
        0 <= b < paragraphs.len(),
        paragraphs[a].index == start_paragraph,
        paragraphs[b].index == end_paragraph,
        forall|j: int| 0 <= j < a ==> paragraphs[j].index != start_paragraph,
        forall|j: int| 0 <= j < b ==> paragraphs[j].index != end_paragraph,
    ensures
        selected_range_spec(start_paragraph, end_paragraph, paragraphs) == Ok::<(int, int), DocxFault>((a, b)),
{
    lemma_first_position(paragraphs, start_paragraph, a);
    lemma_first_position(paragraphs, end_paragraph, b);
}

/// The refusal of a style sample outside the questions range.
pub open spec fn sample_outside_fault(role: Seq<char>, index: usize) -> DocxFault {
    refusal(
        document_error(
            "TEMPLATE_STYLE_SAMPLE_OUTSIDE_QUESTIONS_RANGE"@,
            "style sample '"@ + role + "' uses paragraph "@ + crate::text::decimal(index as nat)
                + ", which is outside the selected questions range"@,
        ),
    )
}

/// The refusal of a style sample whose paragraph does not exist.
pub open spec fn sample_missing_fault(role: Seq<char>, index: usize) -> DocxFault {
    refusal(
        document_error(
            "TEMPLATE_STYLE_SAMPLE_NOT_FOUND"@,
            "style sample '"@ + role + "' refers to missing paragraph "@ + crate::text::decimal(index as nat),
        ),
    )
}

/// Whether `result` is what the style sample `role`, at paragraph `index`,
/// gives: nothing without an index; refused when it must lie in the
/// questions range and does not, or when its paragraph does not exist;
/// otherwise the properties read from its paragraph's bytes.
#[verifier::opaque]
pub open spec fn sample_outcome(
    result: DocxResult<Option<ParagraphStylePrototype>>,
    role: Seq<char>,
    index: Option<usize>,
    in_range: bool,
    range: Option<(usize, usize)>,
    document_xml: Seq<u8>,
    paragraphs: Seq<Paragraph>,
    limits: DocxLimits,
) -> bool {
    match index {
        None => result matches Ok(None),
        Some(i) => if in_range && (range matches Some((a, b)) && (i < a || i > b)) {
            result matches Err(x) && x@ == sample_outside_fault(role, i)
        } else {
            match paragraph_position(paragraphs, i) {
                None => result matches Err(x) && x@ == sample_missing_fault(role, i),
                Some(k) => read_sample_outcome(result, i, paragraphs[k].source_span, document_xml, limits),
            }
        },
    }
}

/// The style one sample lends.
fn style_sample(
    role: &str,
    index: Option<usize>,
    in_range: bool,
    range: Option<(usize, usize)>,
    document_xml: &[u8],
    paragraphs: &[Paragraph],
    limits: &DocxLimits,
) -> (result: DocxResult<Option<ParagraphStylePrototype>>)
    requires
        spans_within(paragraphs@, document_xml@.len() as int),
    ensures
        sample_outcome(result, role@, index, in_range, range, document_xml@, paragraphs@, *limits),
{
    proof {
        reveal(sample_outcome);
    }
    let i = match index {
        None => return Ok(None),
        Some(i) => i,
    };
    let outside = match range {
        Some((a, b)) => i < a || i > b,
        None => false,
    };
    if in_range && outside {
        let mut message = "style sample '".to_owned();
        message.append(role);
        message.append("' uses paragraph ");
        crate::text::push_decimal(&mut message, i as u64);
        message.append(", which is outside the selected questions range");
        return Err(document_refusal("TEMPLATE_STYLE_SAMPLE_OUTSIDE_QUESTIONS_RANGE", message));
    }
    let k = match find_paragraph(paragraphs, i) {
        None => {
            let mut message = "style sample '".to_owned();
            message.append(role);
            message.append("' refers to missing paragraph ");
            crate::text::push_decimal(&mut message, i as u64);
            return Err(document_refusal("TEMPLATE_STYLE_SAMPLE_NOT_FOUND", message));
        },
        Some(k) => k,
    };
    proof {
        lemma_first_position(paragraphs@, i, k as int);
    }
    read_sample(i, paragraphs[k].source_span, document_xml, limits)
}

/// Whether `result` is the prototype read from the bytes `span` of the
/// main document for the sample paragraph `index`.
pub open spec fn read_sample_outcome(
    result: DocxResult<Option<ParagraphStylePrototype>>,
    index: usize,
    span: ByteSpan,
    document_xml: Seq<u8>,
    limits: DocxLimits,
) -> bool {
    exists|read: DocxResult<(Vec<u8>, Vec<u8>)>, stream: XmlStream|
        stream.source_len == span.end - span.start && #[trigger] style_outcome(
            read,
            stream,
            document_xml.subrange(span.start as int, span.end as int),
            limits,
        ) && match read {
            Err(e) => result matches Err(x) && x@ == e@,
            Ok((pp, rp)) => result matches Ok(Some(proto)) && proto.source_paragraph_index == index
                && proto.paragraph_properties@ == pp@ && proto.run_properties@ == rp@,
        }
}

/// The prototype the sample paragraph `index`, at `span`, lends.
fn read_sample(index: usize, span: ByteSpan, document_xml: &[u8], limits: &DocxLimits) -> (result: DocxResult<
    Option<ParagraphStylePrototype>,
>)
    requires
        span.start <= span.end <= document_xml@.len(),
    ensures
        read_sample_outcome(result, index, span, document_xml@, *limits),
{
    let source = vstd::slice::slice_subrange(document_xml, span.start, span.end);
    assert(source@ == document_xml@.subrange(span.start as int, span.end as int));
    let read = extract_paragraph_style_properties(source, limits);
    let ghost read_view = read;
    let ghost st = choose|stream: XmlStream|
        stream.source_len == source@.len() && #[trigger] style_outcome(read_view, stream, source@, *limits);
    assert(style_outcome(read_view, st, source@, *limits));
    match read {
        Err(x) => Err(x),
        Ok((pp, rp)) => Ok(
            Some(ParagraphStylePrototype { source_paragraph_index: index, paragraph_properties: pp, run_properties: rp }),
        ),
    }
}

/// The questions range of a configuration, checked against the paragraphs.
pub open spec fn source_range_spec(configuration: TemplateRegionConfiguration, paragraphs: Seq<Paragraph>) -> Result<
    Option<(usize, usize)>,
    DocxFault,
> {
    match configuration.questions {
        TemplateRegionPlacement::ReplaceRange { start_paragraph, end_paragraph } => match selected_range_spec(
            start_paragraph,
            end_paragraph,
            paragraphs,
        ) {
            Err(f) => Err(f),
            Ok(_) => Ok(Some((start_paragraph, end_paragraph))),
        },
        _ => Ok(None),
    }
}

/// The paragraph a title placement samples its style from.
pub open spec fn title_sample(configuration: TemplateRegionConfiguration) -> Option<usize> {
    match configuration.title {
        Some(TemplateRegionPlacement::ReplaceParagraph(i)) => Some(i),
        Some(TemplateRegionPlacement::AfterParagraph(i)) => Some(i),
        _ => None,
    }
}

/// The paragraph the question role samples: the one chosen, or else the
/// start of the questions range.
pub open spec fn question_sample(configuration: TemplateRegionConfiguration, range: Option<(usize, usize)>) -> Option<usize> {
    match configuration.styles.question {
        Some(i) => Some(i),
        None => match range {
            Some((a, _)) => Some(a),
            None => None,
        },
    }
}

/// Whether any role has a sample.
pub open spec fn has_samples(configuration: TemplateRegionConfiguration, range: Option<(usize, usize)>) -> bool {
    title_sample(configuration) is Some || configuration.styles.section_heading is Some || question_sample(
        configuration,
        range,
    ) is Some || configuration.styles.option is Some || configuration.styles.answer is Some
        || configuration.styles.explanation is Some
}

/// The roles of a profile, in character order of their names.
pub open spec fn role_names(profile: TemplateStyleProfile) -> Seq<Seq<char>> {
    profile.roles@.map_values(|r: (String, ParagraphStylePrototype)| r.0@)
}

/// Appends the role `name` with its prototype, if there is one.
fn push_role(roles: &mut Vec<(String, ParagraphStylePrototype)>, name: &str, prototype: Option<ParagraphStylePrototype>)
    ensures
        match prototype {
            Some(p) => final(roles)@ == old(roles)@.push((final(roles)@.last().0, p)) && final(roles)@.last().0@
                == name@,
            None => final(roles)@ == old(roles)@,
        },
{
    match prototype {
        Some(p) => roles.push((name.to_owned(), p)),
        None => {},
    }
}

/// Whether `samples` are what reading the style samples of a configuration
/// gives, in reading order (title, section heading, question, option,
/// answer, explanation), up to the first that fails.
#[verifier::opaque]
pub open spec fn samples_read(
    samples: Seq<DocxResult<Option<ParagraphStylePrototype>>>,
    configuration: TemplateRegionConfiguration,
    range: Option<(usize, usize)>,
    document_xml: Seq<u8>,
    paragraphs: Seq<Paragraph>,
    limits: DocxLimits,
) -> bool {
    &&& 1 <= samples.len() <= 6
    &&& (samples.len() < 6 ==> samples.last() is Err)
    &&& forall|k: int| 0 <= k < samples.len() - 1 ==> #[trigger] samples[k] is Ok
    &&& sample_outcome(samples[0], "title"@, title_sample(configuration), false, range, document_xml, paragraphs, limits)
    &&& (samples.len() > 1 ==> sample_outcome(samples[1], "sectionHeading"@, configuration.styles.section_heading, true, range, document_xml, paragraphs, limits))
    &&& (samples.len() > 2 ==> sample_outcome(samples[2], "question"@, question_sample(configuration, range), true, range, document_xml, paragraphs, limits))
    &&& (samples.len() > 3 ==> sample_outcome(samples[3], "option"@, configuration.styles.option, true, range, document_xml, paragraphs, limits))
    &&& (samples.len() > 4 ==> sample_outcome(samples[4], "answer"@, configuration.styles.answer, true, range, document_xml, paragraphs, limits))
    &&& (samples.len() > 5 ==> sample_outcome(samples[5], "explanation"@, configuration.styles.explanation, true, range, document_xml, paragraphs, limits))
}

/// The first error among `samples`, in order.
pub open spec fn sample_fault(samples: Seq<DocxResult<Option<ParagraphStylePrototype>>>) -> Option<DocxFault>
    decreases samples.len(),
{
    if samples.len() == 0 {
        None
    } else {
        match sample_fault(samples.drop_last()) {
            Some(f) => Some(f),
            None => match samples.last() {
                Err(x) => Some(x@),
                Ok(_) => None,
            },
        }
    }
}

/// The role `name` with the prototype `sample` lends, when it lends one.
pub open spec fn role_entry(name: Seq<char>, sample: DocxResult<Option<ParagraphStylePrototype>>) -> Seq<
    (Seq<char>, ParagraphStylePrototype),
> {
    match sample {
        Ok(Some(p)) => seq![(name, p)],
        _ => Seq::empty(),
    }
}

/// The roles that samples read in reading order lend, in character order
/// of the role names.
pub open spec fn sampled_roles(samples: Seq<DocxResult<Option<ParagraphStylePrototype>>>) -> Seq<
    (Seq<char>, ParagraphStylePrototype),
> {
    role_entry("answer"@, samples[4]) + role_entry("explanation"@, samples[5]) + role_entry("option"@, samples[3])
        + role_entry("question"@, samples[2]) + role_entry("sectionHeading"@, samples[1]) + role_entry(
        "title"@,
        samples[0],
    )
}

/// A profile's roles as plain values.
pub open spec fn roles_view(roles: Seq<(String, ParagraphStylePrototype)>) -> Seq<(Seq<char>, ParagraphStylePrototype)> {
    roles.map_values(|r: (String, ParagraphStylePrototype)| (r.0@, r.1))
}

/// A sample reads as nothing exactly when the role has no sample
/// paragraph.
proof fn lemma_sample_none(
    result: DocxResult<Option<ParagraphStylePrototype>>,
    role: Seq<char>,
    index: Option<usize>,
    in_range: bool,
    range: Option<(usize, usize)>,
    document_xml: Seq<u8>,
    paragraphs: Seq<Paragraph>,
    limits: DocxLimits,
)
    requires
        sample_outcome(result, role, index, in_range, range, document_xml, paragraphs, limits),
    ensures
        (result matches Ok(None)) <==> index is None,
{
    reveal(sample_outcome);
}

/// The six style samples of a configuration, read in order (title,
/// section heading, question, option, answer, explanation) up to the first
/// that fails.
#[verifier::spinoff_prover]
#[verifier::rlimit(60)]
fn read_style_samples(
    document_xml: &[u8],
    paragraphs: &[Paragraph],
    configuration: &TemplateRegionConfiguration,
    range: Option<(usize, usize)>,
    limits: &DocxLimits,
) -> (result: DocxResult<
    (
        Option<ParagraphStylePrototype>,
        Option<ParagraphStylePrototype>,
        Option<ParagraphStylePrototype>,
        Option<ParagraphStylePrototype>,
        Option<ParagraphStylePrototype>,
        Option<ParagraphStylePrototype>,
    ),
>)
    requires
        spans_within(paragraphs@, document_xml@.len() as int),
    ensures
        exists|samples: Seq<DocxResult<Option<ParagraphStylePrototype>>>|
            #[trigger] samples_read(samples, *configuration, range, document_xml@, paragraphs@, *limits) && match sample_fault(
                samples,
            ) {
                Some(fault) => result matches Err(x) && x@ == fault,
                None => result matches Ok(r) && samples == seq![
                    Ok::<Option<ParagraphStylePrototype>, DocxError>(r.0),
                    Ok::<Option<ParagraphStylePrototype>, DocxError>(r.1),
                    Ok::<Option<ParagraphStylePrototype>, DocxError>(r.2),
                    Ok::<Option<ParagraphStylePrototype>, DocxError>(r.3),
                    Ok::<Option<ParagraphStylePrototype>, DocxError>(r.4),
                    Ok::<Option<ParagraphStylePrototype>, DocxError>(r.5),
                ],
            },
{
    let title_index = match &configuration.title {
        Some(TemplateRegionPlacement::ReplaceParagraph(i)) => Some(*i),
        Some(TemplateRegionPlacement::AfterParagraph(i)) => Some(*i),
        _ => None,
    };
    let question_index = match configuration.styles.question {
        Some(i) => Some(i),
        None => match range {
            Some((a, _)) => Some(a),
            None => None,
        },
    };
    let title_read = style_sample("title", title_index, false, range, document_xml, paragraphs, limits);
    let title = match title_read {
        Err(x) => {
            proof {
                reveal_with_fuel(sample_fault, 7);
                let samples = seq![title_read];
                assert(samples_read(samples, *configuration, range, document_xml@, paragraphs@, *limits)) by {
                    reveal(samples_read);
                }
                assert(sample_fault(samples) == Some(x@));
            }
            return Err(x);
        },
        Ok(p) => p,
    };
    let section_heading_read = style_sample(
        "sectionHeading",
        configuration.styles.section_heading,
        true,
        range,
        document_xml,
        paragraphs,
        limits,
    );
    let section_heading = match section_heading_read {
        Err(x) => {
            proof {
                reveal_with_fuel(sample_fault, 7);
                let samples = seq![title_read, section_heading_read];
                assert(samples_read(samples, *configuration, range, document_xml@, paragraphs@, *limits)) by {
                    reveal(samples_read);
                }
                assert(sample_fault(samples) == Some(x@));
            }
            return Err(x);
        },
        Ok(p) => p,
    };
    let question_read = style_sample("question", question_index, true, range, document_xml, paragraphs, limits);
    let question = match question_read {
        Err(x) => {
            proof {
                reveal_with_fuel(sample_fault, 7);
                let samples = seq![title_read, section_heading_read, question_read];
                assert(samples_read(samples, *configuration, range, document_xml@, paragraphs@, *limits)) by {
                    reveal(samples_read);
                }
                assert(sample_fault(samples) == Some(x@));
            }
            return Err(x);
        },
        Ok(p) => p,
    };
    let option_read = style_sample(
        "option",
        configuration.styles.option,
        true,
        range,
        document_xml,
        paragraphs,
        limits,
    );
    let option = match option_read {
        Err(x) => {
            proof {
                reveal_with_fuel(sample_fault, 7);
                let samples = seq![title_read, section_heading_read, question_read, option_read];
                assert(samples_read(samples, *configuration, range, document_xml@, paragraphs@, *limits)) by {
                    reveal(samples_read);
                }
                assert(sample_fault(samples) == Some(x@));
            }
            return Err(x);
        },
        Ok(p) => p,
    };
    let answer_read = style_sample(
        "answer",
        configuration.styles.answer,
        true,
        range,
        document_xml,
        paragraphs,
        limits,
    );
    let answer = match answer_read {
        Err(x) => {
            proof {
                reveal_with_fuel(sample_fault, 7);
                let samples = seq![title_read, section_heading_read, question_read, option_read, answer_read];
                assert(samples_read(samples, *configuration, range, document_xml@, paragraphs@, *limits)) by {
                    reveal(samples_read);
                }
                assert(sample_fault(samples) == Some(x@));
            }
            return Err(x);
        },
        Ok(p) => p,
    };
    let explanation_read = style_sample(
        "explanation",
        configuration.styles.explanation,
        true,
        range,
        document_xml,
        paragraphs,
        limits,
    );
    let explanation = match explanation_read {
        Err(x) => {
            proof {
                reveal_with_fuel(sample_fault, 7);
                let samples = seq![title_read, section_heading_read, question_read, option_read, answer_read, explanation_read];
                assert(samples_read(samples, *configuration, range, document_xml@, paragraphs@, *limits)) by {
                    reveal(samples_read);
                }
                assert(sample_fault(samples) == Some(x@));
            }
            return Err(x);
        },
        Ok(p) => p,
    };
    let ghost samples = seq![title_read, section_heading_read, question_read, option_read, answer_read, explanation_read];
    proof {
        reveal_with_fuel(sample_fault, 7);
        assert(samples_read(samples, *configuration, range, document_xml@, paragraphs@, *limits)) by {
                    reveal(samples_read);
                }
        assert(sample_fault(samples) is None);
    }
    let result: DocxResult<
        (
            Option<ParagraphStylePrototype>,
            Option<ParagraphStylePrototype>,
            Option<ParagraphStylePrototype>,
            Option<ParagraphStylePrototype>,
            Option<ParagraphStylePrototype>,
            Option<ParagraphStylePrototype>,
        ),
    > = Ok((title, section_heading, question, option, answer, explanation));
    assert(result matches Ok(r) && samples == seq![
        Ok::<Option<ParagraphStylePrototype>, DocxError>(r.0),
        Ok::<Option<ParagraphStylePrototype>, DocxError>(r.1),
        Ok::<Option<ParagraphStylePrototype>, DocxError>(r.2),
        Ok::<Option<ParagraphStylePrototype>, DocxError>(r.3),
        Ok::<Option<ParagraphStylePrototype>, DocxError>(r.4),
        Ok::<Option<ParagraphStylePrototype>, DocxError>(r.5),
    ]);
    result
}

/// The style profile a configuration defines: for each role with a sample
/// paragraph (the title placement's paragraph; the chosen section heading,
/// question, option, answer and explanation paragraphs, the question
/// defaulting to the start of the questions range), the properties that
/// paragraph lends. Samples of the question roles must lie within the
/// questions range. Roles are kept in character order of their names;
/// without any sample there is no profile.
#[verifier::rlimit(50)]
pub fn build_style_profile(
    document_xml: &[u8],
    paragraphs: &[Paragraph],
    configuration: &TemplateRegionConfiguration,
    limits: &DocxLimits,
) -> (result: DocxResult<Option<TemplateStyleProfile>>)
    requires
        spans_within(paragraphs@, document_xml@.len() as int),
    ensures
        match source_range_spec(*configuration, paragraphs@) {
            Err(fault) => result matches Err(x) && x@ == fault,
            Ok(range) => {
                &&& (!has_samples(*configuration, range) ==> result matches Ok(None))
                &&& (result matches Ok(Some(profile)) ==> has_samples(*configuration, range)
                    && profile.schema_version == 1 && profile.source_range == match range {
                    Some((a, b)) => Some(TemplateSourceRange { start_paragraph_index: a, end_paragraph_index: b }),
                    None => None,
                })
                &&& (result matches Ok(None) ==> !has_samples(*configuration, range))
                &&& exists|samples: Seq<DocxResult<Option<ParagraphStylePrototype>>>|
                    #[trigger] samples_read(samples, *configuration, range, document_xml@, paragraphs@, *limits)
                    && match sample_fault(samples) {
                        Some(fault) => result matches Err(x) && x@ == fault,
                        None => (result matches Ok(Some(profile)) ==> roles_view(profile.roles@) == sampled_roles(samples))
                            && (result is Ok),
                    }
            },
        },
{
    let range: Option<(usize, usize)> = match &configuration.questions {
        TemplateRegionPlacement::ReplaceRange { start_paragraph, end_paragraph } => {
            match selected_paragraph_range(*start_paragraph, *end_paragraph, paragraphs) {
                Err(x) => return Err(x),
                Ok((a, b)) => {
                    proof {
                        lemma_selected_range(*start_paragraph, *end_paragraph, paragraphs@, a as int, b as int);
                    }
                },
            }
            Some((*start_paragraph, *end_paragraph))
        },
        _ => None,
    };
    let read = read_style_samples(document_xml, paragraphs, configuration, range, limits);
    let ghost samples = choose|samples: Seq<DocxResult<Option<ParagraphStylePrototype>>>|
        #[trigger] samples_read(samples, *configuration, range, document_xml@, paragraphs@, *limits) && match sample_fault(
            samples,
        ) {
            Some(fault) => read matches Err(x) && x@ == fault,
            None => read matches Ok(r) && samples == seq![
                Ok::<Option<ParagraphStylePrototype>, DocxError>(r.0),
                Ok::<Option<ParagraphStylePrototype>, DocxError>(r.1),
                Ok::<Option<ParagraphStylePrototype>, DocxError>(r.2),
                Ok::<Option<ParagraphStylePrototype>, DocxError>(r.3),
                Ok::<Option<ParagraphStylePrototype>, DocxError>(r.4),
                Ok::<Option<ParagraphStylePrototype>, DocxError>(r.5),
            ],
        };
    proof {
        reveal(samples_read);
        reveal_with_fuel(sample_fault, 7);
        lemma_sample_none(samples[0], "title"@, title_sample(*configuration), false, range, document_xml@, paragraphs@, *limits);
        if samples.len() > 1 {
            lemma_sample_none(samples[1], "sectionHeading"@, configuration.styles.section_heading, true, range, document_xml@, paragraphs@, *limits);
        }
        if samples.len() > 2 {
            lemma_sample_none(samples[2], "question"@, question_sample(*configuration, range), true, range, document_xml@, paragraphs@, *limits);
        }
        if samples.len() > 3 {
            lemma_sample_none(samples[3], "option"@, configuration.styles.option, true, range, document_xml@, paragraphs@, *limits);
        }
        if samples.len() > 4 {
            lemma_sample_none(samples[4], "answer"@, configuration.styles.answer, true, range, document_xml@, paragraphs@, *limits);
        }
        if samples.len() > 5 {
            lemma_sample_none(samples[5], "explanation"@, configuration.styles.explanation, true, range, document_xml@, paragraphs@, *limits);
        }
    }
    let (title, section_heading, question, option, answer, explanation) = match read {
        Err(x) => return Err(x),
        Ok(r) => r,
    };
    let any = title.is_some() || section_heading.is_some() || question.is_some() || option.is_some()
        || answer.is_some() || explanation.is_some();
    if !any {
        return Ok(None);
    }
    let mut roles: Vec<(String, ParagraphStylePrototype)> = Vec::new();
    push_role(&mut roles, "answer", answer);
    push_role(&mut roles, "explanation", explanation);
    push_role(&mut roles, "option", option);
    push_role(&mut roles, "question", question);
    push_role(&mut roles, "sectionHeading", section_heading);
    push_role(&mut roles, "title", title);
    let source_range = match range {
        Some((a, b)) => Some(TemplateSourceRange { start_paragraph_index: a, end_paragraph_index: b }),
        None => None,
    };
    proof {
        assert(roles_view(roles@) =~= sampled_roles(samples));
    }
    Ok(Some(TemplateStyleProfile { schema_version: 1, source_range, roles }))
}

/// The refusal of a package that is not a `.docx` document.
pub open spec fn package_unsupported_fault() -> DocxFault {
    refusal(
        DiagnosticView {
            severity: DiagnosticSeverity::Error,
            code: "TEMPLATE_CONFIGURATION_PACKAGE_UNSUPPORTED"@,
            part_name: None,
            message: "only .docx document templates can be configured"@,
            suggested_action: None,
        },
    )
}

/// The analysis of a template that can be configured: a document package
/// whose analysis found no error; otherwise refused with the analysis's
/// findings, or because it is no document.
pub fn acceptable_document_analysis(package_bytes: &[u8], limits: &DocxLimits) -> (result: DocxResult<
    TemplatePackageAnalysis,
>)
    ensures
        result matches Ok(a) ==> a.document_xml is Some && !has_error(diagnostics_view(a.diagnostics@))
            && a.package_kind == PackageKind::Document && a.archive_bytes == package_bytes@.len(),
        package_bytes@.len() > limits.max_archive_bytes ==> (result matches Err(x) && x@ == DocxFault::Rejected {
            diagnostics: seq![spec_archive_size_diagnostic(package_bytes@.len() as u64, *limits)->0],
        }),
{
    let analysis = match analyze_template_package(package_bytes, limits) {
        Err(x) => return Err(x),
        Ok(a) => a,
    };
    if !analysis.is_acceptable() {
        return Err(DocxError::rejected(analysis.diagnostics));
    }
    if analysis.package_kind != PackageKind::Document {
        let d = Diagnostic::error(
            "TEMPLATE_CONFIGURATION_PACKAGE_UNSUPPORTED",
            None,
            "only .docx document templates can be configured".to_owned(),
        );
        let found = vec![d];
        assert(diagnostics_view(found@) =~= seq![
            DiagnosticView {
                severity: DiagnosticSeverity::Error,
                code: "TEMPLATE_CONFIGURATION_PACKAGE_UNSUPPORTED"@,
                part_name: None,
                message: "only .docx document templates can be configured"@,
                suggested_action: None,
            }
        ]);
        return Err(DocxError::rejected(found));
    }
    Ok(analysis)
}

/// Reads the main document and knows its paragraphs lie within its bytes.
pub(crate) fn read_placed_document(document_xml: &[u8], limits: &DocxLimits) -> (result: DocxResult<ParsedDocument>)
    ensures
        result matches Ok(d) ==> spans_within(d.paragraphs@, document_xml@.len() as int),
        exists|stream: XmlStream|
            stream.source_len == document_xml@.len() && #[trigger] document_outcome(result, stream, document_xml@, *limits),
{
    let result = parse_document_xml(document_xml, limits);
    let ghost r = result;
    let len = document_xml.len();
    proof {
        let stream = choose|stream: XmlStream|
            stream.source_len == document_xml@.len() && #[trigger] document_outcome(r, stream, document_xml@, *limits);
        if r is Ok {
            assert(positions_fit(stream, document_xml@.len() as int));
            lemma_paragraph_spans_within(stream, document_xml@, *limits);
            let d = r->Ok_0;
            assert(crate::document::spec_parse_document(stream, document_xml@, *limits) matches Ok(v) && v
                == d.view_document());
            assert forall|k: int| 0 <= k < d.paragraphs@.len() implies #[trigger] d.paragraphs@[k].source_span.start
                <= d.paragraphs@[k].source_span.end <= document_xml@.len() by {
                assert(d.view_document().paragraphs[k] == paragraph_view(d.paragraphs@[k]));
                assert(d.view_document().paragraphs[k].span.start <= d.view_document().paragraphs[k].span.end
                    <= document_xml@.len());
            }
        }
    }
    result
}

/// The paragraphs a configuration can point at: those outside every anchor
/// region, by index and text, in order.
pub open spec fn configurable_paragraphs(anchors: Seq<TemplateAnchor>, paragraphs: Seq<Paragraph>) -> Seq<(usize, Seq<char>)>
    decreases paragraphs.len(),
{
    if paragraphs.len() == 0 {
        Seq::empty()
    } else {
        let before = configurable_paragraphs(anchors, paragraphs.drop_last());
        let p = paragraphs.last();
        if inside_anchor(anchors, p.source_span) {
            before
        } else {
            before.push((p.index, p.logical_text@))
        }
    }
}

/// Whether some anchor is called `name`.
pub open spec fn has_anchor_named(anchors: Seq<TemplateAnchor>, name: Seq<char>) -> bool {
    exists|k: int| 0 <= k < anchors.len() && #[trigger] anchors[k].name@ == name
}

/// The preview's paragraphs as plain values.
pub open spec fn preview_paragraphs(preview: TemplateConfigurationPreview) -> Seq<(usize, Seq<char>)> {
    preview.paragraphs@.map_values(|p: TemplateConfigurationParagraph| (p.index, p.text@))
}

/// Whether some anchor is called `name`.
fn any_anchor_named(anchors: &[TemplateAnchor], name: &str) -> (found: bool)
    ensures
        found == has_anchor_named(anchors@, name@),
{
    let mut k: usize = 0;
    while k < anchors.len()
        invariant
            k <= anchors@.len(),
            forall|j: int| 0 <= j < k ==> #[trigger] anchors@[j].name@ != name@,
        decreases anchors@.len() - k,
    {
        if same_text(anchors[k].name.as_str(), name) {
            return true;
        }
        k = k + 1;
    }
    false
}

/// What a paper offers for configuration, given its anchors and paragraphs:
/// the paragraphs outside every anchor region, and whether it already has
/// a questions and a title anchor.
pub fn configuration_preview(anchors: &[TemplateAnchor], paragraphs: Vec<Paragraph>) -> (preview:
    TemplateConfigurationPreview)
    ensures
        preview_paragraphs(preview) == configurable_paragraphs(anchors@, paragraphs@),
        preview.has_questions_anchor == has_anchor_named(anchors@, "ZT_QUESTIONS"@),
        preview.has_title_anchor == has_anchor_named(anchors@, "ZT_TITLE"@),
{
    let ghost all = paragraphs@;
    let mut kept: Vec<TemplateConfigurationParagraph> = Vec::new();
    let mut rest = paragraphs;
    let total = rest.len();
    let mut taken: usize = 0;
    assert(all.subrange(0, 0) =~= Seq::<Paragraph>::empty());
    assert(preview_paragraphs(TemplateConfigurationPreview { paragraphs: kept, has_questions_anchor: false, has_title_anchor: false }) =~= Seq::<(usize, Seq<char>)>::empty());
    while rest.len() > 0
        invariant
            total == all.len(),
            taken + rest@.len() == all.len(),
            rest@ == all.subrange(taken as int, all.len() as int),
            kept@.map_values(|p: TemplateConfigurationParagraph| (p.index, p.text@)) == configurable_paragraphs(
                anchors@,
                all.subrange(0, taken as int),
            ),
        decreases rest@.len(),
    {
        let ghost before = rest@;
        let p = rest.remove(0);
        assert(p == all[taken as int]);
        assert(rest@ =~= all.subrange(taken + 1, all.len() as int));
        assert(all.subrange(0, taken + 1).drop_last() =~= all.subrange(0, taken as int));
        assert(all.subrange(0, taken + 1).last() == p);
        if !any_anchor_contains(anchors, p.source_span) {
            let ghost prior = kept@;
            let index = p.index;
            let text = p.logical_text;
            kept.push(TemplateConfigurationParagraph { index, text });
            assert(kept@.map_values(|q: TemplateConfigurationParagraph| (q.index, q.text@)) =~= prior.map_values(
                |q: TemplateConfigurationParagraph| (q.index, q.text@),
            ).push((index, text@)));
        }
        taken = taken + 1;
    }
    assert(all.subrange(0, all.len() as int) =~= all);
    TemplateConfigurationPreview {
        paragraphs: kept,
        has_questions_anchor: any_anchor_named(anchors, "ZT_QUESTIONS"),
        has_title_anchor: any_anchor_named(anchors, "ZT_TITLE"),
    }
}

/// What a paper held in `package_bytes` offers for configuration: once its
/// analysis shows a document package without errors, the paragraphs of its
/// main document outside every anchor region and whether it already has a
/// questions and a title anchor (as [`configuration_preview`] gives them).
pub fn preview_template_configuration(package_bytes: &[u8], limits: &DocxLimits) -> (result: DocxResult<
    TemplateConfigurationPreview,
>)
    ensures
        package_bytes@.len() > limits.max_archive_bytes ==> (result matches Err(x) && x@ == DocxFault::Rejected {
            diagnostics: seq![spec_archive_size_diagnostic(package_bytes@.len() as u64, *limits)->0],
        }),
        result matches Ok(preview) ==> exists|anchors: Seq<TemplateAnchor>, xml: Seq<u8>, parsed: ParsedDocument, stream: XmlStream|
            #![trigger document_outcome(Ok(parsed), stream, xml, *limits), configurable_paragraphs(anchors, parsed.paragraphs@)]
            document_outcome(Ok(parsed), stream, xml, *limits) && preview_paragraphs(preview)
                == configurable_paragraphs(anchors, parsed.paragraphs@) && preview.has_questions_anchor
                == has_anchor_named(anchors, "ZT_QUESTIONS"@) && preview.has_title_anchor == has_anchor_named(
                anchors,
                "ZT_TITLE"@,
            ),
{
    let analysis = match acceptable_document_analysis(package_bytes, limits) {
        Err(x) => return Err(x),
        Ok(a) => a,
    };
    let document_xml = match &analysis.document_xml {
        None => return Err(missing_document_error()),
        Some(xml) => xml,
    };
    let parsed = match parse_document_xml(document_xml.as_slice(), limits) {
        Err(x) => return Err(x),
        Ok(d) => d,
    };
    let ghost parsed_view = parsed;
    let ghost st = choose|stream: XmlStream|
        stream.source_len == document_xml@.len() && #[trigger] document_outcome(
            Ok::<ParsedDocument, DocxError>(parsed_view),
            stream,
            document_xml@,
            *limits,
        );
    let preview = configuration_preview(analysis.anchors.as_slice(), parsed.paragraphs);
    assert(document_outcome(Ok::<ParsedDocument, DocxError>(parsed_view), st, document_xml@, *limits));
    Ok(preview)
}

} // verus!
