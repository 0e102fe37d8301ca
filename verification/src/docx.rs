//! Whole-package readers: the checked package in memory, then its main
//! document, or its MathType equations converted to LaTeX.
use vstd::prelude::*;
use crate::archive::{inspect_archive, open_archive, read_part_limited};
use crate::diagnostic::{Diagnostic, DiagnosticSeverity, diagnostics_view};
use crate::document::{ParsedDocument, parse_document_xml};
use crate::error::{DocxError, DocxFault, DocxResult};
use crate::images::archive_too_large;
use crate::latex::join_strings;
use crate::limits::DocxLimits;
use crate::markers::{ObjectMarker, parse_mathtype_markers};
use crate::mathtype::{ConversionView, ExtractedMathTypeOccurrence, MathTypeConversion, convert_equation_native_to_latex, spec_convert_equation_native};
use crate::mtef::{MAX_EQUATION_NATIVE_BYTES, invalid_mathtype, mathtype_fault};
use crate::package::{DOCUMENT_PART, PartInfo, archive_size_diagnostic, spec_archive_size_diagnostic};
use crate::relationships::{DOCUMENT_RELS_PART, PartRelationship, parse_mathtype_relationships};
use crate::text::{ascii_lower, ascii_lower_chars, chars_of, has_prefix, same_text, starts_with_chars};
use crate::anchors::{
    AnchorView, anchors_outcome, anchors_view, check_template_anchors, missing_finding, missing_findings, name_count,
    required_name, required_view, spec_template_anchors,
};
use crate::diagnostic::{DiagnosticView, has_error};
use crate::xml::XmlStream;
use crate::template::TemplatePackageAnalysis;

verus! {

/// Largest sum of the sizes of all MathType objects read, in bytes.
pub const MAX_TOTAL_MATHTYPE_BYTES: u64 = 33554432;

/// Validates the package held in `package_bytes`, reads `word/document.xml`
/// with a bound, and extracts its logical representation, with the
/// package's warnings appended to the document's own findings.
pub fn read_document_from_docx(package_bytes: &[u8], limits: &DocxLimits) -> (result: DocxResult<
    ParsedDocument,
>)
    ensures
        package_bytes@.len() > limits.max_archive_bytes ==> (result matches Err(e) && e@
            == (DocxFault::Rejected {
            diagnostics: seq![spec_archive_size_diagnostic(package_bytes@.len() as u64, *limits)->0],
        })),
{
    let archive_bytes = package_bytes.len() as u64;
    match archive_size_diagnostic(archive_bytes, limits) {
        Some(diagnostic) => {
            let ghost d = diagnostic@;
            let mut findings: Vec<Diagnostic> = Vec::new();
            findings.push(diagnostic);
            assert(diagnostics_view(findings@) =~= seq![d]);
            return Err(DocxError::rejected(findings));
        },
        None => {},
    }
    let mut archive = match open_archive(package_bytes) {
        Err(error) => return Err(DocxError::Zip(error)),
        Ok(archive) => archive,
    };
    let inspection = match inspect_archive(&mut archive, Some(archive_bytes), None, limits) {
        Err(error) => return Err(error),
        Ok(inspection) => inspection,
    };
    match inspection.ensure_acceptable() {
        Err(error) => return Err(error),
        Ok(_) => {},
    }
    let xml = match read_part_limited(&mut archive, DOCUMENT_PART, limits.max_xml_part_bytes) {
        Err(error) => return Err(error),
        Ok(bytes) => bytes,
    };
    let mut document = match parse_document_xml(xml.as_slice(), limits) {
        Err(error) => return Err(error),
        Ok(document) => document,
    };
    let findings = inspection.diagnostics;
    let mut i: usize = 0;
    while i < findings.len()
        invariant
            i <= findings@.len(),
        decreases findings@.len() - i,
    {
        if findings[i].severity != DiagnosticSeverity::Error {
            document.diagnostics.push(findings[i].clone());
        }
        i = i + 1;
    }
    Ok(document)
}

/// The strings of `ids` as character sequences.
pub open spec fn text_view(ids: Seq<String>) -> Seq<Seq<char>> {
    ids.map_values(|s: String| s@)
}

/// Whether `ids` holds `id`.
fn holds(ids: &Vec<String>, id: &str) -> (found: bool)
    ensures
        found == text_view(ids@).contains(id@),
{
    let mut i: usize = 0;
    while i < ids.len()
        invariant
            i <= ids@.len(),
            forall|j: int| 0 <= j < i ==> #[trigger] ids@[j]@ != id@,
        decreases ids@.len() - i,
    {
        if same_text(ids[i].as_str(), id) {
            assert(text_view(ids@)[i as int] == id@);
            return true;
        }
        i = i + 1;
    }
    assert(!text_view(ids@).contains(id@)) by {
        if text_view(ids@).contains(id@) {
            let k = choose|k: int| 0 <= k < text_view(ids@).len() && text_view(ids@)[k] == id@;
            assert(ids@[k]@ == id@);
        }
    }
    false
}

/// The relationship ids the markers name.
pub open spec fn marker_ids(markers: Seq<ObjectMarker>) -> Seq<Seq<char>> {
    markers.map_values(|m: ObjectMarker| m.relationship_id@)
}

/// The ids of the relationships.
pub open spec fn relationship_ids(relationships: Seq<PartRelationship>) -> Seq<Seq<char>> {
    relationships.map_values(|r: PartRelationship| r.id@)
}

/// Whether every marker's id names a relationship and every relationship
/// is named by a marker.
fn same_ids(markers: &Vec<ObjectMarker>, relationships: &Vec<PartRelationship>) -> (same: bool)
    ensures
        same == (marker_ids(markers@).to_set() == relationship_ids(relationships@).to_set()),
{
    let mut marker_id_list: Vec<String> = Vec::new();
    let mut i: usize = 0;
    while i < markers.len()
        invariant
            i <= markers@.len(),
            text_view(marker_id_list@) == marker_ids(markers@).subrange(0, i as int),
        decreases markers@.len() - i,
    {
        let ghost before = marker_id_list@;
        marker_id_list.push(markers[i].relationship_id.clone());
        assert(text_view(marker_id_list@) =~= text_view(before).push(markers@[i as int].relationship_id@));
        assert(marker_ids(markers@).subrange(0, i + 1) =~= marker_ids(markers@).subrange(0, i as int).push(
            markers@[i as int].relationship_id@,
        ));
        i = i + 1;
    }
    let mut relationship_id_list: Vec<String> = Vec::new();
    let mut j: usize = 0;
    while j < relationships.len()
        invariant
            j <= relationships@.len(),
            text_view(relationship_id_list@) == relationship_ids(relationships@).subrange(0, j as int),
        decreases relationships@.len() - j,
    {
        let ghost before = relationship_id_list@;
        relationship_id_list.push(relationships[j].id.clone());
        assert(text_view(relationship_id_list@) =~= text_view(before).push(relationships@[j as int].id@));
        assert(relationship_ids(relationships@).subrange(0, j + 1) =~= relationship_ids(relationships@).subrange(
            0,
            j as int,
        ).push(relationships@[j as int].id@));
        j = j + 1;
    }
    assert(marker_ids(markers@).subrange(0, markers@.len() as int) =~= marker_ids(markers@));
    assert(relationship_ids(relationships@).subrange(0, relationships@.len() as int) =~= relationship_ids(relationships@));
    same_members(&marker_id_list, &relationship_id_list)
}

/// Whether `a` and `b` hold the same strings, as sets.
fn same_members(a: &Vec<String>, b: &Vec<String>) -> (same: bool)
    ensures
        same == (text_view(a@).to_set() == text_view(b@).to_set()),
{
    let mut i: usize = 0;
    while i < a.len()
        invariant
            i <= a@.len(),
            forall|k: int| 0 <= k < i ==> text_view(b@).contains(#[trigger] text_view(a@)[k]),
        decreases a@.len() - i,
    {
        if !holds(b, a[i].as_str()) {
            assert(text_view(a@)[i as int] == a@[i as int]@);
            assert(text_view(a@).contains(a@[i as int]@));
            assert(text_view(a@).to_set().contains(a@[i as int]@));
            assert(!text_view(b@).to_set().contains(a@[i as int]@));
            return false;
        }
        i = i + 1;
    }
    let mut j: usize = 0;
    while j < b.len()
        invariant
            j <= b@.len(),
            forall|k: int| 0 <= k < a@.len() ==> text_view(b@).contains(#[trigger] text_view(a@)[k]),
            forall|k: int| 0 <= k < j ==> text_view(a@).contains(#[trigger] text_view(b@)[k]),
        decreases b@.len() - j,
    {
        if !holds(a, b[j].as_str()) {
            assert(text_view(b@)[j as int] == b@[j as int]@);
            assert(text_view(b@).contains(b@[j as int]@));
            assert(text_view(b@).to_set().contains(b@[j as int]@));
            assert(!text_view(a@).to_set().contains(b@[j as int]@));
            return false;
        }
        j = j + 1;
    }
    assert(text_view(a@).to_set() =~= text_view(b@).to_set()) by {
        assert forall|x: Seq<char>| text_view(a@).to_set().contains(x) implies text_view(b@).to_set().contains(x) by {
            let k = choose|k: int| 0 <= k < text_view(a@).len() && text_view(a@)[k] == x;
        }
        assert forall|x: Seq<char>| text_view(b@).to_set().contains(x) implies text_view(a@).to_set().contains(x) by {
            let k = choose|k: int| 0 <= k < text_view(b@).len() && text_view(b@)[k] == x;
        }
    }
    true
}

/// Whether a part is a file under `word/embeddings/`, in any case.
pub open spec fn is_embedding_part(part: PartInfo) -> bool {
    !part.is_directory && has_prefix(ascii_lower(part.name@), "word/embeddings/"@)
}

/// The names of the files under `word/embeddings/` among `parts`, in order.
pub open spec fn embedding_names(parts: Seq<PartInfo>) -> Seq<Seq<char>>
    decreases parts.len(),
{
    if parts.len() == 0 {
        Seq::empty()
    } else if is_embedding_part(parts.last()) {
        embedding_names(parts.drop_last()).push(parts.last().name@)
    } else {
        embedding_names(parts.drop_last())
    }
}

/// The names of the package's files under `word/embeddings/`, in any case.
fn embedding_parts(parts: &Vec<PartInfo>) -> (names: Vec<String>)
    ensures
        text_view(names@) == embedding_names(parts@),
{
    let prefix = chars_of("word/embeddings/");
    let mut names: Vec<String> = Vec::new();
    let mut i: usize = 0;
    while i < parts.len()
        invariant
            i <= parts@.len(),
            prefix@ == "word/embeddings/"@,
            text_view(names@) == embedding_names(parts@.subrange(0, i as int)),
        decreases parts@.len() - i,
    {
        assert(parts@.subrange(0, i + 1).drop_last() =~= parts@.subrange(0, i as int));
        let lower = ascii_lower_chars(chars_of(parts[i].name.as_str()).as_slice());
        if !parts[i].is_directory && starts_with_chars(lower.as_slice(), prefix.as_slice()) {
            let ghost before = names@;
            names.push(parts[i].name.clone());
            assert(text_view(names@) =~= text_view(before).push(parts@[i as int].name@));
        }
        i = i + 1;
    }
    assert(parts@.subrange(0, parts@.len() as int) =~= parts@);
    names
}

/// The first relationship with id `id`, if any.
fn relationship_named<'a>(relationships: &'a Vec<PartRelationship>, id: &str) -> (found: Option<
    &'a PartRelationship,
>)
    ensures
        match found {
            Some(r) => exists|k: int|
                0 <= k < relationships@.len() && #[trigger] relationships@[k] == *r && r.id@ == id@ && forall|j: int|
                    0 <= j < k ==> #[trigger] relationships@[j].id@ != id@,
            None => forall|k: int| 0 <= k < relationships@.len() ==> #[trigger] relationships@[k].id@ != id@,
        },
{
    let mut i: usize = 0;
    while i < relationships.len()
        invariant
            i <= relationships@.len(),
            forall|j: int| 0 <= j < i ==> #[trigger] relationships@[j].id@ != id@,
        decreases relationships@.len() - i,
    {
        if same_text(relationships[i].id.as_str(), id) {
            return Some(&relationships[i]);
        }
        i = i + 1;
    }
    None
}

/// A conversion of some `Equation Native` stream with no unsupported
/// construct.
pub open spec fn converted_cleanly(latex: Seq<char>, version: u8, subversion: u8) -> bool {
    exists|stream: Seq<u8>|
        #[trigger] spec_convert_equation_native(stream) == Ok::<ConversionView, Seq<char>>(
            (latex, version, subversion, Seq::empty()),
        )
}

/// A converted MathType object, kept by the part it was read from.
struct ConvertedObject {
    target_part: String,
    conversion: MathTypeConversion,
}

spec fn converted_all_cleanly(objects: Seq<ConvertedObject>) -> bool {
    forall|i: int|
        0 <= i < objects.len() ==> converted_cleanly(
            (#[trigger] objects[i]).conversion.latex@,
            objects[i].conversion.product_version,
            objects[i].conversion.product_subversion,
        )
}

/// Every occurrence carries a clean conversion of some stream.
pub open spec fn occurrences_clean(occurrences: Seq<ExtractedMathTypeOccurrence>) -> bool {
    forall|i: int|
        0 <= i < occurrences.len() ==> converted_cleanly(
            (#[trigger] occurrences[i]).latex@,
            occurrences[i].product_version,
            occurrences[i].product_subversion,
        )
}

/// The position of the object converted from `target`, if any.
fn converted_index(objects: &Vec<ConvertedObject>, target: &str) -> (found: Option<usize>)
    ensures
        match found {
            Some(k) => k < objects@.len() && objects@[k as int].target_part@ == target@ && forall|j: int|
                0 <= j < k ==> #[trigger] objects@[j].target_part@ != target@,
            None => forall|j: int| 0 <= j < objects@.len() ==> #[trigger] objects@[j].target_part@ != target@,
        },
{
    let mut i: usize = 0;
    while i < objects.len()
        invariant
            i <= objects@.len(),
            forall|j: int| 0 <= j < i ==> #[trigger] objects@[j].target_part@ != target@,
        decreases objects@.len() - i,
    {
        if same_text(objects[i].target_part.as_str(), target) {
            return Some(i);
        }
        i = i + 1;
    }
    None
}

/// The message for a MathType import made without the safety policy.
pub open spec fn msg_policy() -> Seq<char> {
    "MathType extraction was requested without the Word-import safety policy"@
}

/// Safely extracts the MathType equations of the package held in
/// `package_bytes` and converts them to editable LaTeX, in document order.
/// Callers must opt in with `allow_mathtype_ole`. Every OLE relationship
/// must be a visible equation occurrence and every embedded object part
/// must be one of them; an equation with a construct the converter does
/// not support is refused.
pub fn read_mathtype_from_docx(package_bytes: &[u8], limits: &DocxLimits) -> (result: DocxResult<
    Vec<ExtractedMathTypeOccurrence>,
>)
    ensures
        !limits.allow_mathtype_ole ==> (result matches Err(e) && e@ == mathtype_fault(msg_policy())),
        limits.allow_mathtype_ole && package_bytes@.len() > limits.max_archive_bytes ==> (result matches Err(e)
            && e@ == archive_too_large(*limits, package_bytes@.len() as u64)),
        result matches Ok(occurrences) ==> occurrences_clean(occurrences@),
{
    if !limits.allow_mathtype_ole {
        return Err(
            invalid_mathtype(
                "MathType extraction was requested without the Word-import safety policy".to_owned(),
            ),
        );
    }
    let archive_size = package_bytes.len() as u64;
    if archive_size > limits.max_archive_bytes {
        return Err(
            DocxError::LimitExceeded {
                resource: "DOCX archive".to_owned(),
                limit: limits.max_archive_bytes,
                actual: archive_size,
            },
        );
    }
    let mut archive = match open_archive(package_bytes) {
        Err(error) => return Err(DocxError::Zip(error)),
        Ok(archive) => archive,
    };
    let inspection = match inspect_archive(&mut archive, Some(archive_size), None, limits) {
        Err(error) => return Err(error),
        Ok(inspection) => inspection,
    };
    match inspection.ensure_acceptable() {
        Err(error) => return Err(error),
        Ok(_) => {},
    }
    let document_xml = match read_part_limited(&mut archive, DOCUMENT_PART, limits.max_xml_part_bytes) {
        Err(error) => return Err(error),
        Ok(bytes) => bytes,
    };
    let markers = match parse_mathtype_markers(document_xml.as_slice(), limits) {
        Err(error) => return Err(error),
        Ok(markers) => markers,
    };
    let embedded = embedding_parts(&inspection.parts);
    let relationships_xml = match read_part_limited(
        &mut archive,
        DOCUMENT_RELS_PART,
        limits.max_xml_part_bytes,
    ) {
        Err(_) => return Err(
            invalid_mathtype("MathType objects require word/_rels/document.xml.rels".to_owned()),
        ),
        Ok(bytes) => bytes,
    };
    let relationships = match parse_mathtype_relationships(relationships_xml.as_slice(), limits) {
        Err(error) => return Err(error),
        Ok(relationships) => relationships,
    };
    if !same_ids(&markers, &relationships) {
        return Err(
            invalid_mathtype(
                "every embedded OLE relationship must be a visible MathType equation occurrence".to_owned(),
            ),
        );
    }
    let mut targets: Vec<String> = Vec::new();
    let mut t: usize = 0;
    while t < relationships.len()
        invariant
            t <= relationships@.len(),
        decreases relationships@.len() - t,
    {
        targets.push(relationships[t].target_part.clone());
        t = t + 1;
    }
    if !same_members(&embedded, &targets) {
        return Err(
            invalid_mathtype("every embedded object part must be referenced by a MathType equation".to_owned()),
        );
    }
    let mut converted: Vec<ConvertedObject> = Vec::new();
    let mut total: u64 = 0;
    let mut output: Vec<ExtractedMathTypeOccurrence> = Vec::new();
    let mut m: usize = 0;
    while m < markers.len()
        invariant
            m <= markers@.len(),
            limits.allow_mathtype_ole,
            package_bytes@.len() <= limits.max_archive_bytes,
            converted_all_cleanly(converted@),
            occurrences_clean(output@),
        decreases markers@.len() - m,
    {
        let marker = &markers[m];
        let relationship = match relationship_named(&relationships, marker.relationship_id.as_str()) {
            None => return Err(invalid_mathtype("MathType relationship disappeared during parsing".to_owned())),
            Some(r) => r,
        };
        let k = match converted_index(&converted, relationship.target_part.as_str()) {
            Some(k) => k,
            None => {
                let limit = MAX_EQUATION_NATIVE_BYTES as u64;
                let ole_bytes = match read_part_limited(&mut archive, relationship.target_part.as_str(), limit) {
                    Ok(bytes) => bytes,
                    Err(DocxError::LimitExceeded { actual, .. }) => {
                        return Err(
                            DocxError::LimitExceeded {
                                resource: relationship.target_part.clone(),
                                limit,
                                actual,
                            },
                        );
                    },
                    Err(_) => {
                        let mut message = "MathType relationship ".to_owned();
                        message.append(marker.relationship_id.as_str());
                        message.append(" points to a missing or unreadable object");
                        return Err(invalid_mathtype(message));
                    },
                };
                let size = ole_bytes.len() as u64;
                if size > MAX_TOTAL_MATHTYPE_BYTES || total > MAX_TOTAL_MATHTYPE_BYTES - size {
                    return Err(
                        DocxError::LimitExceeded {
                            resource: "DOCX MathType object bytes".to_owned(),
                            limit: MAX_TOTAL_MATHTYPE_BYTES,
                            actual: total.saturating_add(size),
                        },
                    );
                }
                total = total + size;
                let conversion = match convert_equation_native_to_latex(ole_bytes.as_slice()) {
                    Err(error) => return Err(error),
                    Ok(conversion) => conversion,
                };
                if conversion.unsupported_features.len() != 0 {
                    let mut message = "MathType equation ".to_owned();
                    message.append(marker.relationship_id.as_str());
                    message.append(" contains unsupported constructs: ");
                    let list = join_strings(conversion.unsupported_features.as_slice(), ", ");
                    message.append(list.as_str());
                    return Err(invalid_mathtype(message));
                }
                proof {
                    assert(conversion.unsupported_features@ =~= Seq::<String>::empty());
                    assert(conversion.view_parts().3 =~= Seq::<Seq<char>>::empty());
                }
                converted.push(ConvertedObject { target_part: relationship.target_part.clone(), conversion });
                converted.len() - 1
            },
        };
        let object = &converted[k];
        let occurrence = ExtractedMathTypeOccurrence {
            paragraph_index: marker.paragraph_index,
            text_char_offset: marker.text_char_offset,
            relationship_id: marker.relationship_id.clone(),
            latex: object.conversion.latex.clone(),
            product_version: object.conversion.product_version,
            product_subversion: object.conversion.product_subversion,
        };
        output.push(occurrence);
        m = m + 1;
    }
    Ok(output)
}

/// Whether `anchors` and the findings `diagnostics` are what checking the
/// anchors of the main document `xml` gives, after the findings `earlier`,
/// when the XML reader gives the events `stream` for it.
pub open spec fn anchored_analysis(
    stream: XmlStream,
    xml: Seq<u8>,
    required: Seq<Seq<char>>,
    limits: DocxLimits,
    anchors: Seq<AnchorView>,
    diagnostics: Seq<DiagnosticView>,
    earlier: Seq<DiagnosticView>,
) -> bool {
    &&& stream.source_len == xml.len()
    &&& spec_template_anchors(stream, xml, required, limits) matches Ok((found_anchors, found))
    &&& found_anchors == anchors
    &&& diagnostics == earlier + found
}

/// A package whose analysis holds no error has an anchor for every
/// required name.
pub proof fn lemma_required_anchors_present(
    stream: XmlStream,
    xml: Seq<u8>,
    required: Seq<Seq<char>>,
    limits: DocxLimits,
    anchors: Seq<AnchorView>,
    diagnostics: Seq<DiagnosticView>,
    earlier: Seq<DiagnosticView>,
)
    requires
        anchored_analysis(stream, xml, required, limits, anchors, diagnostics, earlier),
        !has_error(diagnostics),
    ensures
        forall|k: int| 0 <= k < required.len() ==> name_count(anchors, #[trigger] required_name(required[k])) > 0,
{
    assert forall|k: int| 0 <= k < required.len() implies name_count(anchors, #[trigger] required_name(required[k])) > 0 by {
        if name_count(anchors, required_name(required[k])) == 0 {
            let (a, found) = spec_template_anchors(stream, xml, required, limits)->Ok_0;
            lemma_missing_is_error(required, anchors, k);
            let missing = missing_findings(required, anchors);
            let j = choose|j: int| 0 <= j < missing.len() && missing[j].severity == DiagnosticSeverity::Error;
            let prefix = diagnostics.len() - missing.len();
            assert(found =~= found.subrange(0, found.len() - missing.len()) + missing);
            assert(diagnostics[prefix + j] == missing[j]);
        }
    }
}

/// A required name with no anchor gives an error finding.
proof fn lemma_missing_is_error(required: Seq<Seq<char>>, anchors: Seq<AnchorView>, k: int)
    requires
        0 <= k < required.len(),
        name_count(anchors, required_name(required[k])) == 0,
    ensures
        has_error(missing_findings(required, anchors)),
    decreases required.len(),
{
    let before = missing_findings(required.drop_last(), anchors);
    if k == required.len() - 1 {
        let missing = missing_findings(required, anchors);
        assert(missing[missing.len() - 1] == missing_finding(required_name(required.last())));
    } else {
        assert(required.drop_last()[k] == required[k]);
        lemma_missing_is_error(required.drop_last(), anchors, k);
        let j = choose|j: int| 0 <= j < before.len() && before[j].severity == DiagnosticSeverity::Error;
        assert(missing_findings(required, anchors)[j] == before[j]);
    }
}

/// Analyses a template package held in `package_bytes` in one pass: the
/// package is inspected once, and when it has no error its main document
/// is read and its anchors found, with every name in `required` looked for.
/// A package over the archive limit gets only that finding.
pub fn analyze_template_package_with_requirements(
    package_bytes: &[u8],
    required: &[&str],
    limits: &DocxLimits,
) -> (result: DocxResult<TemplatePackageAnalysis>)
    ensures
        result matches Ok(analysis) ==> analysis.archive_bytes == package_bytes@.len(),
        package_bytes@.len() > limits.max_archive_bytes ==> (result matches Ok(analysis)
            && analysis.document_xml is None && diagnostics_view(analysis.diagnostics@)
            == seq![spec_archive_size_diagnostic(package_bytes@.len() as u64, *limits)->0]),
        result matches Ok(analysis) ==> (analysis.document_xml matches Some(xml) ==> xml@.len()
            <= limits.max_xml_part_bytes),
        result matches Ok(analysis) ==> (analysis.document_xml matches Some(xml) ==> exists|
            stream: XmlStream,
            earlier: Seq<DiagnosticView>,
        |
            #[trigger] anchored_analysis(
                stream,
                xml@,
                required_view(required@),
                *limits,
                anchors_view(analysis.anchors@),
                diagnostics_view(analysis.diagnostics@),
                earlier,
            )),
{
    let archive_bytes = package_bytes.len() as u64;
    match archive_size_diagnostic(archive_bytes, limits) {
        Some(diagnostic) => {
            let ghost d = diagnostic@;
            let mut diagnostics: Vec<Diagnostic> = Vec::new();
            diagnostics.push(diagnostic);
            assert(diagnostics_view(diagnostics@) =~= seq![d]);
            return Ok(
                TemplatePackageAnalysis {
                    package_kind: crate::package::PackageKind::Unknown,
                    archive_bytes,
                    part_count: 0,
                    total_uncompressed_bytes: 0,
                    document_xml: None,
                    anchors: Vec::new(),
                    diagnostics,
                },
            );
        },
        None => {},
    }
    let mut archive = match open_archive(package_bytes) {
        Err(error) => return Err(DocxError::Zip(error)),
        Ok(archive) => archive,
    };
    let inspection = match inspect_archive(&mut archive, Some(archive_bytes), None, limits) {
        Err(error) => return Err(error),
        Ok(inspection) => inspection,
    };
    let acceptable = inspection.is_acceptable();
    let mut analysis = TemplatePackageAnalysis {
        package_kind: inspection.package_kind,
        archive_bytes,
        part_count: inspection.parts.len(),
        total_uncompressed_bytes: inspection.total_uncompressed_bytes,
        document_xml: None,
        anchors: Vec::new(),
        diagnostics: inspection.diagnostics,
    };
    if !acceptable {
        return Ok(analysis);
    }
    let document_xml = match read_part_limited(&mut archive, DOCUMENT_PART, limits.max_xml_part_bytes) {
        Err(error) => return Err(error),
        Ok(bytes) => bytes,
    };
    let checked = check_template_anchors(document_xml.as_slice(), required, limits);
    let ghost stream = choose|stream: XmlStream|
        stream.source_len == document_xml@.len() && #[trigger] anchors_outcome(
            checked,
            stream,
            document_xml@,
            required_view(required@),
            *limits,
        );
    let report = match checked {
        Err(error) => return Err(error),
        Ok(report) => report,
    };
    let ghost earlier = diagnostics_view(analysis.diagnostics@);
    analysis.anchors = report.anchors;
    let mut more = report.diagnostics;
    let ghost found = diagnostics_view(more@);
    let ghost before = analysis.diagnostics@;
    let ghost added = more@;
    analysis.diagnostics.append(&mut more);
    assert(diagnostics_view(analysis.diagnostics@) =~= earlier + found) by {
        assert(analysis.diagnostics@ =~= before + added);
    }
    analysis.document_xml = Some(document_xml);
    assert(anchored_analysis(
        stream,
        document_xml@,
        required_view(required@),
        *limits,
        anchors_view(analysis.anchors@),
        diagnostics_view(analysis.diagnostics@),
        earlier,
    ));
    let result: DocxResult<TemplatePackageAnalysis> = Ok(analysis);
    assert(result matches Ok(a) && a.document_xml matches Some(x) && anchored_analysis(
        stream,
        x@,
        required_view(required@),
        *limits,
        anchors_view(a.anchors@),
        diagnostics_view(a.diagnostics@),
        earlier,
    ));
    result
}

/// Analyses a template package with no required anchor names.
pub fn analyze_template_package(package_bytes: &[u8], limits: &DocxLimits) -> (result: DocxResult<
    TemplatePackageAnalysis,
>)
    ensures
        result matches Ok(analysis) ==> analysis.archive_bytes == package_bytes@.len(),
        package_bytes@.len() > limits.max_archive_bytes ==> (result matches Ok(analysis)
            && analysis.document_xml is None && diagnostics_view(analysis.diagnostics@)
            == seq![spec_archive_size_diagnostic(package_bytes@.len() as u64, *limits)->0]),
{
    let none: Vec<&str> = Vec::new();
    analyze_template_package_with_requirements(package_bytes, none.as_slice(), limits)
}

} // verus!
