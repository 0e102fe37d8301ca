use std::io::{Cursor, Write};

use zhitiku_desktop::anchors::check_template_anchors;
use zhitiku_desktop::docx::{
    analyze_template_package, analyze_template_package_with_requirements, read_mathtype_from_docx,
};
use zhitiku_desktop::limits::DocxLimits;
use zhitiku_desktop::package::PackageKind;
use zhitiku_desktop::template::AnchorKind;
use zip::{ZipWriter, write::SimpleFileOptions};

const TEMPLATE: &str = r#"<?xml version="1.0" encoding="UTF-8"?>
<w:document xmlns:w="http://schemas.openxmlformats.org/wordprocessingml/2006/main">
  <w:body>
    <w:sdt>
      <w:sdtPr><w:tag w:val="ZT_TITLE"/></w:sdtPr>
      <w:sdtContent><w:p><w:r><w:t>Title here</w:t></w:r></w:p></w:sdtContent>
    </w:sdt>
    <w:p><w:r><w:t>{{ZT_</w:t></w:r><w:r><w:t>QUESTIONS}}</w:t></w:r></w:p>
  </w:body>
</w:document>"#;

#[test]
fn finds_content_control_and_split_run_marker() {
    let report =
        check_template_anchors(TEMPLATE.as_bytes(), &["ZT_TITLE", "ZT_QUESTIONS"], &DocxLimits::default())
            .unwrap();
    assert!(report.is_valid(), "{:?}", report.diagnostics);
    assert_eq!(report.anchors.len(), 2);
    assert_eq!(report.anchors[0].kind, AnchorKind::ContentControl);
    assert_eq!(report.anchors[0].name, "ZT_TITLE");
    assert_eq!(report.anchors[1].kind, AnchorKind::ParagraphMarker);
    assert_eq!(report.anchors[1].name, "ZT_QUESTIONS");
}

#[test]
fn diagnoses_missing_and_duplicate_anchors() {
    let xml = TEMPLATE.replace("ZT_TITLE", "ZT_QUESTIONS");
    let report =
        check_template_anchors(xml.as_bytes(), &["ZT_TITLE", "ZT_QUESTIONS"], &DocxLimits::default()).unwrap();
    assert!(report.diagnostics.iter().any(|item| item.code == "DOCX_TEMPLATE_ANCHOR_MISSING"));
    assert!(report.diagnostics.iter().any(|item| item.code == "DOCX_TEMPLATE_ANCHOR_DUPLICATE"));
}

#[test]
fn duplicate_findings_follow_name_order_and_count() {
    let xml = r#"<w:document xmlns:w="http://schemas.openxmlformats.org/wordprocessingml/2006/main"><w:body>
<w:p><w:r><w:t>{{ZT_B}}</w:t></w:r></w:p><w:p><w:r><w:t>{{ZT_A}}</w:t></w:r></w:p>
<w:p><w:r><w:t>{{ZT_B}}</w:t></w:r></w:p><w:p><w:r><w:t>{{ZT_A}}</w:t></w:r></w:p><w:p><w:r><w:t>{{ZT_A}}</w:t></w:r></w:p>
</w:body></w:document>"#;
    let report = check_template_anchors(xml.as_bytes(), &["{{ZT_C}}"], &DocxLimits::default()).unwrap();
    let messages: Vec<&str> = report.diagnostics.iter().map(|d| d.message.as_str()).collect();
    assert_eq!(
        messages,
        vec![
            "template anchor 'ZT_A' occurs 3 times",
            "template anchor 'ZT_B' occurs 2 times",
            "required template anchor 'ZT_C' is missing",
        ]
    );
    assert_eq!(
        report.diagnostics[2].suggested_action.as_deref(),
        Some("Add a content control tagged 'ZT_C' or a whole paragraph containing '{{ZT_C}}'.")
    );
    let indices: Vec<Option<usize>> = report.anchors.iter().map(|a| a.paragraph_index).collect();
    assert_eq!(indices, vec![Some(0), Some(1), Some(2), Some(3), Some(4)]);
}

#[test]
fn controls_without_content_are_malformed() {
    let xml = r#"<w:document xmlns:w="http://schemas.openxmlformats.org/wordprocessingml/2006/main"><w:body>
<w:sdt><w:sdtPr><w:tag w:val="ZT_X"/></w:sdtPr></w:sdt></w:body></w:document>"#;
    let report = check_template_anchors(xml.as_bytes(), &[], &DocxLimits::default()).unwrap();
    assert!(report.anchors.is_empty());
    assert_eq!(report.diagnostics.len(), 1);
    assert_eq!(report.diagnostics[0].code, "DOCX_TEMPLATE_ANCHOR_MALFORMED");
    let open = r#"<w:document xmlns:w="http://schemas.openxmlformats.org/wordprocessingml/2006/main"><w:body><w:sdt>"#;
    assert!(check_template_anchors(open.as_bytes(), &[], &DocxLimits::default()).is_err());
}

const CONTENT_TYPES: &str = r#"<?xml version="1.0" encoding="UTF-8"?>
<Types xmlns="http://schemas.openxmlformats.org/package/2006/content-types">
  <Default Extension="rels" ContentType="application/vnd.openxmlformats-package.relationships+xml"/>
  <Default Extension="xml" ContentType="application/xml"/>
  <Override PartName="/word/document.xml" ContentType="application/vnd.openxmlformats-officedocument.wordprocessingml.document.main+xml"/>
</Types>"#;

const ROOT_RELS: &str = r#"<?xml version="1.0" encoding="UTF-8"?>
<Relationships xmlns="http://schemas.openxmlformats.org/package/2006/relationships">
  <Relationship Id="rId1" Type="http://schemas.openxmlformats.org/officeDocument/2006/relationships/officeDocument" Target="word/document.xml"/>
</Relationships>"#;

fn package_with_entries(entries: &[(&str, &[u8])]) -> Vec<u8> {
    let cursor = Cursor::new(Vec::new());
    let mut writer = ZipWriter::new(cursor);
    let options = SimpleFileOptions::default().compression_method(zip::CompressionMethod::Deflated);
    for (name, bytes) in entries {
        writer.start_file(*name, options).unwrap();
        writer.write_all(bytes).unwrap();
    }
    writer.finish().unwrap().into_inner()
}

fn minimal_docx(document_xml: &str) -> Vec<u8> {
    package_with_entries(&[
        ("[Content_Types].xml", CONTENT_TYPES.as_bytes()),
        ("_rels/.rels", ROOT_RELS.as_bytes()),
        ("word/document.xml", document_xml.as_bytes()),
        ("word/styles.xml", b"<w:styles xmlns:w=\"http://schemas.openxmlformats.org/wordprocessingml/2006/main\"/>"),
    ])
}

const PACKAGE_TEMPLATE: &str = r#"<w:document xmlns:w="http://schemas.openxmlformats.org/wordprocessingml/2006/main">
<w:body>
  <w:sdt><w:sdtPr><w:tag w:val="ZT_TITLE"/></w:sdtPr><w:sdtContent><w:p><w:r><w:t>Title</w:t></w:r></w:p></w:sdtContent></w:sdt>
  <w:p><w:r><w:t>{{ZT_QUESTIONS}}</w:t></w:r></w:p>
</w:body></w:document>"#;

#[test]
fn inspects_once_and_returns_document_and_anchors() {
    let bytes = minimal_docx(PACKAGE_TEMPLATE);
    let analysis = analyze_template_package_with_requirements(
        &bytes,
        &["ZT_TITLE", "ZT_QUESTIONS"],
        &DocxLimits::default(),
    )
    .unwrap();
    assert!(analysis.is_acceptable(), "{:?}", analysis.diagnostics);
    assert_eq!(analysis.package_kind, PackageKind::Document);
    assert_eq!(analysis.part_count, 4);
    assert!(analysis.document_xml.is_some());
    assert_eq!(analysis.anchors.len(), 2);
}

#[test]
fn does_not_return_document_bytes_for_rejected_packages() {
    let limits = DocxLimits { max_archive_bytes: 4, ..DocxLimits::default() };
    let analysis = analyze_template_package(&minimal_docx(PACKAGE_TEMPLATE), &limits).unwrap();
    assert!(!analysis.is_acceptable());
    assert!(analysis.document_xml.is_none());
    assert!(analysis.diagnostics.iter().any(|item| item.code == "DOCX_ARCHIVE_TOO_LARGE"));
}

#[test]
fn mathtype_import_needs_the_safety_policy() {
    let bytes = minimal_docx(PACKAGE_TEMPLATE);
    let error = read_mathtype_from_docx(&bytes, &DocxLimits::default()).unwrap_err();
    assert!(error
        .message()
        .ends_with("MathType extraction was requested without the Word-import safety policy"));
    let limits = DocxLimits { allow_mathtype_ole: true, ..DocxLimits::default() };
    let error = read_mathtype_from_docx(&bytes, &limits).unwrap_err();
    assert!(error.message().ends_with("MathType objects require word/_rels/document.xml.rels"));
}
