//! Turning a paper into a managed template package: its old regions
//! removed, the title and questions regions placed as configured, embedded
//! MathType objects of the removed questions cleared out, and the result
//! checked as a strict template.
use vstd::prelude::*;
use crate::diagnostic::{Diagnostic, diagnostics_view, has_error};
use crate::anchors::{anchors_view, name_count, required_name, required_view};
use crate::diagnostic::DiagnosticView;
use crate::docx::{
    analyze_template_package_with_requirements, anchored_analysis, lemma_required_anchors_present, read_mathtype_from_docx,
};
use crate::xml::XmlStream;
use crate::document::parse_document_xml;
use crate::error::{DocxError, DocxFault, DocxResult};
use crate::export::{raw_copy_with_replacements, raw_copy_with_replacements_and_removals};
use crate::limits::DocxLimits;
use crate::mathtype::ExtractedMathTypeOccurrence;
use crate::package::{DOCUMENT_PART, PackageKind, spec_archive_size_diagnostic};
use crate::template::TemplatePackageAnalysis;
use crate::template_config::{EditView, TemplateRegionConfiguration, TemplateStyleProfile, XmlEdit, clash_at, edit_not_after, first_clash, first_invalid_edit, insert_edit, sort_edits, acceptable_document_analysis, build_style_profile, document_body_insert_offset, document_word_namespace, edits_view, missing_document_error, placement_edit, read_placed_document, reject_unsupported_anchors, unknown_anchor_names, validate_edits};
use crate::template_sanitize::{collect_mathtype_object_relationships, id_set, sanitize_mathtype_package_parts, strict_limits};
use crate::text::same_text;

use crate::xml_reader::read_part_events;

verus! {

/// A configured template: its bytes, its strict analysis, and the style
/// profile its configuration defines.
#[derive(Clone, Debug, PartialEq, Eq)]
pub struct ConfiguredTemplatePackage {
    pub bytes: Vec<u8>,
    pub analysis: TemplatePackageAnalysis,
    pub style_profile: Option<TemplateStyleProfile>,
}

/// Whether ordered edits lie within `len` bytes without overlapping.
pub open spec fn edits_ordered(edits: Seq<EditView>, len: int) -> bool {
    &&& forall|i: int| 0 <= i < edits.len() ==> #[trigger] edits[i].span.start <= edits[i].span.end <= len
    &&& forall|i: int| 0 <= i < edits.len() - 1 ==> #[trigger] edits[i].span.end <= edits[i + 1].span.start
}

/// `xml` from byte `pos` on with the edits from `i` on applied.
pub open spec fn applied_from(xml: Seq<u8>, edits: Seq<EditView>, i: int, pos: int) -> Seq<u8>
    decreases edits.len() - i,
{
    if i < 0 || i >= edits.len() {
        xml.subrange(pos, xml.len() as int)
    } else {
        xml.subrange(pos, edits[i].span.start as int) + edits[i].bytes + applied_from(
            xml,
            edits,
            i + 1,
            edits[i].span.end as int,
        )
    }
}

/// `xml` with ordered, non-overlapping edits applied: each edit's span
/// replaced by its bytes.
pub fn apply_edits(xml: &[u8], edits: &Vec<XmlEdit>) -> (result: Vec<u8>)
    requires
        edits_ordered(edits_view(edits@), xml@.len() as int),
    ensures
        result@ == applied_from(xml@, edits_view(edits@), 0, 0),
{
    let ghost ev = edits_view(edits@);
    let mut out: Vec<u8> = Vec::new();
    let mut pos: usize = 0;
    let mut i: usize = 0;
    while i < edits.len()
        invariant
            ev == edits_view(edits@),
            edits_ordered(ev, xml@.len() as int),
            i <= ev.len(),
            pos <= xml@.len(),
            i < ev.len() ==> pos <= ev[i as int].span.start,
            out@ + applied_from(xml@, ev, i as int, pos as int) == applied_from(xml@, ev, 0, 0),
        decreases ev.len() - i,
    {
        let span = edits[i].span;
        assert(ev[i as int].span == span && ev[i as int].bytes == edits@[i as int].bytes@);
        let ghost before = out@;
        crate::template_styles::push_bytes_range(&mut out, xml, pos, span.start);
        let bytes = edits[i].bytes.as_slice();
        crate::template_styles::push_bytes_range(&mut out, bytes, 0, bytes.len());
        assert(bytes@.subrange(0, bytes@.len() as int) =~= bytes@);
        assert(out@ + applied_from(xml@, ev, i + 1, span.end as int) =~= before + applied_from(xml@, ev, i as int, pos as int));
        pos = span.end;
        i = i + 1;
    }
    let ghost before = out@;
    crate::template_styles::push_bytes_range(&mut out, xml, pos, xml.len());
    assert(out@ =~= before + applied_from(xml@, ev, i as int, pos as int));
    out
}

/// Whether the ids of `formulas` are exactly `ids`.
fn same_formula_ids(formulas: &Vec<ExtractedMathTypeOccurrence>, ids: &Vec<String>) -> (same: bool)
    ensures
        same == (formulas@.map_values(|f: ExtractedMathTypeOccurrence| f.relationship_id@).to_set() == id_set(ids@)),
{
    let ghost fs = formulas@.map_values(|f: ExtractedMathTypeOccurrence| f.relationship_id@);
    let ghost is = ids@.map_values(|s: String| s@);
    let mut k: usize = 0;
    while k < formulas.len()
        invariant
            k <= formulas@.len(),
            fs == formulas@.map_values(|f: ExtractedMathTypeOccurrence| f.relationship_id@),
            is == ids@.map_values(|s: String| s@),
            forall|j: int| 0 <= j < k ==> #[trigger] is.contains(fs[j]),
        decreases formulas@.len() - k,
    {
        let id = formulas[k].relationship_id.as_str();
        let mut m: usize = 0;
        let mut found = false;
        while m < ids.len() && !found
            invariant
                m <= ids@.len(),
                is == ids@.map_values(|s: String| s@),
                found ==> is.contains(id@),
                !found ==> forall|j: int| 0 <= j < m ==> is[j] != id@,
            decreases ids@.len() - m + if found { 0int } else { 1int },
        {
            if same_text(ids[m].as_str(), id) {
                found = true;
                assert(is[m as int] == id@);
            } else {
                m = m + 1;
            }
        }
        if !found {
            proof {
                assert(fs[k as int] == id@);
                assert(!id_set(ids@).contains(id@));
                assert(fs.to_set().contains(id@));
            }
            return false;
        }
        k = k + 1;
    }
    let mut m: usize = 0;
    while m < ids.len()
        invariant
            m <= ids@.len(),
            fs == formulas@.map_values(|f: ExtractedMathTypeOccurrence| f.relationship_id@),
            is == ids@.map_values(|s: String| s@),
            forall|j: int| 0 <= j < m ==> #[trigger] fs.contains(is[j]),
        decreases ids@.len() - m,
    {
        let id = ids[m].as_str();
        let mut k: usize = 0;
        let mut found = false;
        while k < formulas.len() && !found
            invariant
                k <= formulas@.len(),
                fs == formulas@.map_values(|f: ExtractedMathTypeOccurrence| f.relationship_id@),
                found ==> fs.contains(id@),
                !found ==> forall|j: int| 0 <= j < k ==> fs[j] != id@,
            decreases formulas@.len() - k + if found { 0int } else { 1int },
        {
            if same_text(formulas[k].relationship_id.as_str(), id) {
                found = true;
                assert(fs[k as int] == id@);
            } else {
                k = k + 1;
            }
        }
        if !found {
            proof {
                assert(is[m as int] == id@);
                assert(id_set(ids@).contains(id@));
                assert(!fs.to_set().contains(id@));
            }
            return false;
        }
        m = m + 1;
    }
    assert(fs.to_set() =~= id_set(ids@)) by {
        assert forall|x: Seq<char>| fs.to_set().contains(x) <==> id_set(ids@).contains(x) by {
            if fs.to_set().contains(x) {
                let j = choose|j: int| 0 <= j < fs.len() && fs[j] == x;
                assert(is.contains(fs[j]));
            }
            if id_set(ids@).contains(x) {
                let j = choose|j: int| 0 <= j < is.len() && is[j] == x;
                assert(fs.contains(is[j]));
            }
        }
    }
    true
}

/// A refusal with one error about the main document.
fn document_rejection(code: &'static str, message: String) -> (error: DocxError)
    ensures
        error@ is Rejected,
{
    DocxError::rejected(vec![Diagnostic::error(code, Some(DOCUMENT_PART.to_owned()), message)])
}

/// Turns the paper held in `package_bytes` into a managed template package
/// as `configuration` says: the analysis must show a document package
/// without errors or unsupported anchors; its embedded MathType objects,
/// if any, need the MathType policy and must all convert; existing
/// questions (and, with a new title placement, title) regions are removed
/// and the regions placed, with the title keeping floating objects; the
/// edited document must still parse and hold no MathType object; the
/// package is then written with the new document (and, where the source
/// held MathType objects, without their relationships, content types and
/// embedded parts), and must pass the strict template analysis with a
/// questions region.
pub fn configure_template_package(
    package_bytes: &[u8],
    configuration: &TemplateRegionConfiguration,
    limits: &DocxLimits,
) -> (result: DocxResult<ConfiguredTemplatePackage>)
    ensures
        package_bytes@.len() > limits.max_archive_bytes ==> (result matches Err(x) && x@ == DocxFault::Rejected {
            diagnostics: seq![spec_archive_size_diagnostic(package_bytes@.len() as u64, *limits)->0],
        }),
        result matches Ok(c) ==> c.analysis.document_xml is Some && !has_error(diagnostics_view(c.analysis.diagnostics@))
            && c.analysis.package_kind == PackageKind::Document && unknown_anchor_names(c.analysis.anchors@).len()
            == 0,
        result matches Ok(c) ==> name_count(anchors_view(c.analysis.anchors@), required_name("ZT_QUESTIONS"@)) > 0,
{
    let analysis = match acceptable_document_analysis(package_bytes, limits) {
        Err(x) => return Err(x),
        Ok(a) => a,
    };
    match reject_unsupported_anchors(analysis.anchors.as_slice()) {
        Err(x) => return Err(x),
        Ok(_) => {},
    }
    let document_xml = match &analysis.document_xml {
        None => return Err(missing_document_error()),
        Some(xml) => xml.as_slice(),
    };
    let source_references = match collect_mathtype_object_relationships(document_xml, limits) {
        Err(x) => return Err(x),
        Ok(r) => r,
    };
    if source_references.ole_ids.len() > 0 {
        if !limits.allow_mathtype_ole {
            return Err(
                document_rejection(
                    "TEMPLATE_MATHTYPE_POLICY_REQUIRED",
                    "模板包含 MathType 公式，但当前配置任务没有启用 MathType 安全检查。".to_owned(),
                ),
            );
        }
        let formulas = match read_mathtype_from_docx(package_bytes, limits) {
            Err(x) => return Err(x),
            Ok(f) => f,
        };
        if !same_formula_ids(&formulas, &source_references.ole_ids) {
            return Err(
                document_rejection(
                    "TEMPLATE_MATHTYPE_RELATIONSHIP_MISMATCH",
                    "MathType 公式与正文中的嵌入对象关系不一致，无法安全生成模板。".to_owned(),
                ),
            );
        }
    }
    let parsed = match read_placed_document(document_xml, limits) {
        Err(x) => return Err(x),
        Ok(d) => d,
    };
    let stream = read_part_events(document_xml, limits.max_xml_part_bytes);
    let namespace = match document_word_namespace(&stream, limits) {
        Err(x) => return Err(x),
        Ok(ns) => ns,
    };
    let body_insert_offset = match document_body_insert_offset(&stream, limits) {
        Err(x) => return Err(x),
        Ok(offset) => offset,
    };
    let style_profile = match build_style_profile(document_xml, parsed.paragraphs.as_slice(), configuration, limits) {
        Err(x) => return Err(x),
        Ok(p) => p,
    };
    let anchors = analysis.anchors.as_slice();
    let mut edits: Vec<XmlEdit> = Vec::new();
    let mut k: usize = 0;
    while k < anchors.len()
        invariant
            k <= anchors@.len(),
        decreases anchors@.len() - k,
    {
        if same_text(anchors[k].name.as_str(), "ZT_QUESTIONS") {
            edits.push(
                XmlEdit { span: anchors[k].container_span, bytes: Vec::new(), label: "remove existing questions region" },
            );
        }
        k = k + 1;
    }
    if configuration.title.is_some() {
        let mut k: usize = 0;
        while k < anchors.len()
            invariant
                k <= anchors@.len(),
            decreases anchors@.len() - k,
        {
            if same_text(anchors[k].name.as_str(), "ZT_TITLE") {
                edits.push(
                    XmlEdit { span: anchors[k].container_span, bytes: Vec::new(), label: "remove existing title region" },
                );
            }
            k = k + 1;
        }
    }
    match placement_edit(
        &configuration.questions,
        "ZT_QUESTIONS",
        namespace,
        body_insert_offset,
        document_xml,
        parsed.paragraphs.as_slice(),
        anchors,
        limits,
    ) {
        Err(x) => return Err(x),
        Ok(edit) => edits.push(edit),
    }
    match &configuration.title {
        Some(title) => match placement_edit(
            title,
            "ZT_TITLE",
            namespace,
            body_insert_offset,
            document_xml,
            parsed.paragraphs.as_slice(),
            anchors,
            limits,
        ) {
            Err(x) => return Err(x),
            Ok(edit) => edits.push(edit),
        },
        None => {},
    }
    let ghost given = edits_view(edits@);
    match validate_edits(&mut edits, document_xml.len()) {
        Err(x) => return Err(x),
        Ok(_) => {},
    }
    proof {
        lemma_validated_edits_ordered(given, document_xml@.len() as int);
    }
    let configured_xml = apply_edits(document_xml, &edits);
    match parse_document_xml(configured_xml.as_slice(), limits) {
        Err(x) => return Err(x),
        Ok(_) => {},
    }
    let remaining = match collect_mathtype_object_relationships(configured_xml.as_slice(), limits) {
        Err(x) => return Err(x),
        Ok(r) => r,
    };
    if remaining.ole_ids.len() > 0 {
        let mut message = "选择的试题区域不完整：区域外仍有 ".to_owned();
        crate::text::push_decimal(&mut message, remaining.ole_ids.len() as u64);
        message.append(" 个 MathType 公式。请扩大试题删除范围后重试。");
        return Err(document_rejection("TEMPLATE_CONFIGURATION_MATHTYPE_REMAINS", message));
    }
    let exported = if source_references.ole_ids.len() > 0 {
        let (sanitized, removals) = match sanitize_mathtype_package_parts(package_bytes, &source_references, limits) {
            Err(x) => return Err(x),
            Ok(parts) => parts,
        };
        let mut replacements = sanitized;
        replacements.push((DOCUMENT_PART.to_owned(), configured_xml));
        match raw_copy_with_replacements_and_removals(package_bytes, replacements.as_slice(), removals.as_slice(), limits) {
            Err(x) => return Err(x),
            Ok(e) => e,
        }
    } else {
        let replacements = vec![(DOCUMENT_PART.to_owned(), configured_xml)];
        match raw_copy_with_replacements(package_bytes, replacements.as_slice(), limits) {
            Err(x) => return Err(x),
            Ok(e) => e,
        }
    };
    let bytes = exported.output;
    let strict = strict_limits(limits);
    let required = vec!["ZT_QUESTIONS"];
    let configured_analysis = match analyze_template_package_with_requirements(bytes.as_slice(), required.as_slice(), &strict) {
        Err(x) => return Err(x),
        Ok(a) => a,
    };
    if !configured_analysis.is_acceptable() || configured_analysis.package_kind != PackageKind::Document {
        return Err(DocxError::rejected(configured_analysis.diagnostics));
    }
    proof {
        let xml = configured_analysis.document_xml->Some_0;
        let (stream, earlier) = choose|stream: XmlStream, earlier: Seq<DiagnosticView>|
            #[trigger] anchored_analysis(
                stream,
                xml@,
                required_view(required@),
                strict,
                anchors_view(configured_analysis.anchors@),
                diagnostics_view(configured_analysis.diagnostics@),
                earlier,
            );
        lemma_required_anchors_present(
            stream,
            xml@,
            required_view(required@),
            strict,
            anchors_view(configured_analysis.anchors@),
            diagnostics_view(configured_analysis.diagnostics@),
            earlier,
        );
        assert(required_view(required@)[0] == "ZT_QUESTIONS"@);
    }
    match reject_unsupported_anchors(configured_analysis.anchors.as_slice()) {
        Err(x) => return Err(x),
        Ok(_) => {},
    }
    Ok(ConfiguredTemplatePackage { bytes, analysis: configured_analysis, style_profile })
}

/// Ordering edits keeps them: the ordered list has the same length, and
/// each of its edits is one of the list's.
pub proof fn lemma_sort_edits_members(edits: Seq<EditView>)
    ensures
        sort_edits(edits).len() == edits.len(),
        forall|k: int| 0 <= k < sort_edits(edits).len() ==> edits.contains(#[trigger] sort_edits(edits)[k]),
    decreases edits.len(),
{
    if edits.len() > 0 {
        let rest = edits.drop_last();
        lemma_sort_edits_members(rest);
        lemma_insert_edit_members(sort_edits(rest), edits.last());
        assert forall|k: int| 0 <= k < sort_edits(edits).len() implies edits.contains(#[trigger] sort_edits(edits)[k]) by {
            let x = sort_edits(edits)[k];
            if x != edits.last() {
                assert(sort_edits(rest).contains(x));
                let j = choose|j: int| 0 <= j < sort_edits(rest).len() && sort_edits(rest)[j] == x;
                assert(rest.contains(x));
                let m = choose|m: int| 0 <= m < rest.len() && rest[m] == x;
                assert(edits[m] == x);
            } else {
                assert(edits[edits.len() - 1] == x);
            }
        }
    }
}

/// Inserting an edit keeps the others and adds it.
pub proof fn lemma_insert_edit_members(sorted: Seq<EditView>, e: EditView)
    ensures
        insert_edit(sorted, e).len() == sorted.len() + 1,
        forall|k: int|
            0 <= k < insert_edit(sorted, e).len() ==> #[trigger] insert_edit(sorted, e)[k] == e || sorted.contains(
                insert_edit(sorted, e)[k],
            ),
    decreases sorted.len(),
{
    if sorted.len() > 0 && !edit_not_after(sorted.last(), e) {
        lemma_insert_edit_members(sorted.drop_last(), e);
        let r = insert_edit(sorted, e);
        assert forall|k: int| 0 <= k < r.len() implies #[trigger] r[k] == e || sorted.contains(r[k]) by {
            if k == r.len() - 1 {
                assert(sorted[sorted.len() - 1] == sorted.last());
            } else {
                let inner = insert_edit(sorted.drop_last(), e);
                assert(r[k] == inner[k]);
                if inner[k] != e {
                    assert(sorted.drop_last().contains(inner[k]));
                    let m = choose|m: int| 0 <= m < sorted.drop_last().len() && sorted.drop_last()[m] == inner[k];
                    assert(sorted[m] == inner[k]);
                }
            }
        }
    } else if sorted.len() > 0 {
        let r = insert_edit(sorted, e);
        assert forall|k: int| 0 <= k < r.len() implies #[trigger] r[k] == e || sorted.contains(r[k]) by {
            if k < sorted.len() {
                assert(r[k] == sorted[k]);
            }
        }
    }
}

/// Edits that passed [`validate_edits`] are ordered and do not overlap.
pub proof fn lemma_validated_edits_ordered(given: Seq<EditView>, len: int)
    requires
        first_invalid_edit(given, len) is None,
        first_clash(sort_edits(given)) is None,
    ensures
        edits_ordered(sort_edits(given), len),
{
    let sorted = sort_edits(given);
    lemma_sort_edits_members(given);
    assert forall|i: int| 0 <= i < sorted.len() implies #[trigger] sorted[i].span.start <= sorted[i].span.end <= len by {
        assert(given.contains(sorted[i]));
        let j = choose|j: int| 0 <= j < given.len() && given[j] == sorted[i];
        if !(given[j].span.start <= given[j].span.end && given[j].span.end <= len) {
            assert(exists|k: int|
                0 <= k < given.len() && (given[k].span.start > given[k].span.end || given[k].span.end > len));
        }
    }
    assert forall|i: int| 0 <= i < sorted.len() - 1 implies #[trigger] sorted[i].span.end <= sorted[i + 1].span.start by {
        if sorted[i].span.end > sorted[i + 1].span.start {
            assert(clash_at(sorted, i));
        }
    }
}

} // verus!
