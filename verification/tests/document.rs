use zhitiku_desktop::document::{
    DocumentTableCell, FORMULA_PLACEHOLDER, MathKind, parse_document_xml,
};
use zhitiku_desktop::error::DocxError;
use zhitiku_desktop::limits::DocxLimits;

const XML: &str = r#"<?xml version="1.0" encoding="UTF-8"?>
<w:document xmlns:w="http://schemas.openxmlformats.org/wordprocessingml/2006/main"
            xmlns:m="http://schemas.openxmlformats.org/officeDocument/2006/math">
  <w:body>
    <w:p>
      <w:r><w:t>Hello &amp; </w:t></w:r><w:r><w:t>world</w:t><w:tab/><w:br/></w:r>
      <w:del><w:r><w:delText>deleted</w:delText></w:r></w:del>
      <w:r><w:instrText>PAGE</w:instrText><w:t>visible</w:t></w:r>
      <m:oMath><m:r><m:t>x</m:t></m:r></m:oMath>
    </w:p>
  </w:body>
</w:document>"#;

#[test]
fn joins_split_runs_and_captures_exact_omml() {
    let parsed = parse_document_xml(XML.as_bytes(), &DocxLimits::default()).unwrap();
    assert_eq!(parsed.paragraphs.len(), 1);
    assert_eq!(
        parsed.paragraphs[0].logical_text,
        format!("Hello & world\t\nvisible{FORMULA_PLACEHOLDER}")
    );
    assert_eq!(parsed.math_fragments.len(), 1);
    assert_eq!(parsed.math_fragments[0].kind, MathKind::Inline);
    assert_eq!(
        parsed.math_fragments[0].raw_xml,
        b"<m:oMath><m:r><m:t>x</m:t></m:r></m:oMath>"
    );
    assert_eq!(parsed.paragraphs[0].math_fragment_indices, vec![0]);
}

#[test]
fn skips_nested_text_box_paragraphs() {
    let xml =
        br#"<w:document xmlns:w="http://schemas.openxmlformats.org/wordprocessingml/2006/main">
  <w:body>
    <w:p><w:r><w:t>before</w:t></w:r><w:r><w:drawing><w:txbxContent>
      <w:p><w:r><w:t>inside</w:t></w:r></w:p>
    </w:txbxContent></w:drawing><w:t>after</w:t></w:r></w:p>
    <w:p><w:r><w:t>next</w:t></w:r></w:p>
  </w:body>
</w:document>"#;

    let parsed = parse_document_xml(xml, &DocxLimits::default()).unwrap();
    assert_eq!(parsed.paragraphs.len(), 2);
    assert_eq!(parsed.paragraphs[0].logical_text, "beforeafter");
    assert_eq!(parsed.paragraphs[1].logical_text, "next");
}

#[test]
fn still_rejects_nested_paragraphs_outside_text_boxes() {
    let xml =
        br#"<w:document xmlns:w="http://schemas.openxmlformats.org/wordprocessingml/2006/main">
  <w:body><w:p><w:p><w:r><w:t>invalid</w:t></w:r></w:p></w:p></w:body>
</w:document>"#;

    assert!(parse_document_xml(xml, &DocxLimits::default()).is_err());
}

#[test]
fn rejects_doctype_even_without_entity_expansion() {
    let xml = br#"<!DOCTYPE w:document [<!ENTITY x "boom">]>
<w:document xmlns:w="http://schemas.openxmlformats.org/wordprocessingml/2006/main"><w:body/></w:document>"#;
    assert!(parse_document_xml(xml, &DocxLimits::default()).is_err());
}

#[test]
fn enforces_xml_depth() {
    let xml = br#"<w:document xmlns:w="http://schemas.openxmlformats.org/wordprocessingml/2006/main"><w:body><w:p/></w:body></w:document>"#;
    let limits = DocxLimits {
        max_xml_depth: 1,
        ..DocxLimits::default()
    };
    assert!(matches!(
        parse_document_xml(xml, &limits),
        Err(DocxError::LimitExceeded { .. })
    ));
}

#[test]
fn captures_table_rows_cells_and_their_paragraph_indices() {
    let xml =
        br#"<w:document xmlns:w="http://schemas.openxmlformats.org/wordprocessingml/2006/main">
  <w:body>
    <w:p><w:r><w:t>before</w:t></w:r></w:p>
    <w:tbl>
      <w:tr>
        <w:tc><w:p><w:r><w:t>x</w:t></w:r></w:p></w:tc>
        <w:tc><w:p/></w:tc>
        <w:tc><w:p/></w:tc>
      </w:tr>
      <w:tr>
        <w:tc><w:p><w:r><w:t>y</w:t></w:r></w:p></w:tc>
        <w:tc><w:p/></w:tc>
        <w:tc><w:p/></w:tc>
      </w:tr>
    </w:tbl>
    <w:p><w:r><w:t>after</w:t></w:r></w:p>
  </w:body>
</w:document>"#;

    let parsed = parse_document_xml(xml, &DocxLimits::default()).unwrap();
    assert_eq!(parsed.paragraphs.len(), 8);
    assert_eq!(parsed.tables.len(), 1);
    assert_eq!(
        parsed.tables[0].rows,
        vec![
            vec![
                DocumentTableCell { paragraph_indices: vec![1] },
                DocumentTableCell { paragraph_indices: vec![2] },
                DocumentTableCell { paragraph_indices: vec![3] },
            ],
            vec![
                DocumentTableCell { paragraph_indices: vec![4] },
                DocumentTableCell { paragraph_indices: vec![5] },
                DocumentTableCell { paragraph_indices: vec![6] },
            ],
        ]
    );
    assert_eq!(parsed.paragraphs[7].logical_text, "after");
}

#[test]
fn display_math_outside_a_paragraph_is_a_warning() {
    let xml = br#"<w:document xmlns:w="http://schemas.openxmlformats.org/wordprocessingml/2006/main" xmlns:m="http://schemas.openxmlformats.org/officeDocument/2006/math"><w:body><m:oMathPara><m:oMath/></m:oMathPara></w:body></w:document>"#;
    let parsed = parse_document_xml(xml, &DocxLimits::default()).unwrap();
    assert_eq!(parsed.math_fragments.len(), 1);
    assert_eq!(parsed.math_fragments[0].kind, MathKind::Display);
    assert_eq!(parsed.math_fragments[0].paragraph_index, None);
    assert_eq!(parsed.diagnostics.len(), 1);
    assert_eq!(parsed.diagnostics[0].code, "DOCX_MATH_OUTSIDE_PARAGRAPH");
}

#[test]
fn alt_chunks_and_missing_roots_are_refused() {
    let alt = br#"<w:document xmlns:w="http://schemas.openxmlformats.org/wordprocessingml/2006/main"><w:body><w:altChunk/></w:body></w:document>"#;
    let error = parse_document_xml(alt, &DocxLimits::default()).unwrap_err();
    assert!(error.message().ends_with("w:altChunk is not allowed"));
    let rootless = br#"<w:body xmlns:w="http://schemas.openxmlformats.org/wordprocessingml/2006/main"><w:p/></w:body>"#;
    let error = parse_document_xml(rootless, &DocxLimits::default()).unwrap_err();
    assert_eq!(
        error.message(),
        "invalid XML in word/document.xml at byte 0: missing WordprocessingML document root"
    );
}

#[test]
fn oversized_documents_are_refused_before_reading() {
    let limits = DocxLimits { max_xml_part_bytes: 4, ..DocxLimits::default() };
    match parse_document_xml(b"<w:document/>", &limits) {
        Err(DocxError::LimitExceeded { resource, limit, actual }) => {
            assert_eq!(resource, "word/document.xml");
            assert_eq!(limit, 4);
            assert_eq!(actual, 13);
        }
        other => panic!("unexpected outcome {other:?}"),
    }
}
