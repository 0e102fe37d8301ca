use zhitiku_desktop::archive::member_length_check;
use zhitiku_desktop::document::{MathFragment, MathKind};
use zhitiku_desktop::omml::formulas_from_fragments;
use zhitiku_desktop::error::DocxError;
use zhitiku_desktop::hex_bytes::{HexDecodeError, decode_hex_bytes, hex_digit_value};
use zhitiku_desktop::licensing::to_lower_hex;
use zhitiku_desktop::limits::DocxLimits;
use zhitiku_desktop::numbers::{parse_i64, parse_u32, parse_u64};
use zhitiku_desktop::page_setup::{TemplatePageSetup, read_page_setup};
use zhitiku_desktop::side_seal::is_side_seal_paragraph;
use zhitiku_desktop::template_config::{XmlEdit, content_control, marker_paragraph, validate_edits};
use zhitiku_desktop::template_configure::apply_edits;
use zhitiku_desktop::types::ByteSpan;
use zhitiku_desktop::template_layout::page_number_format;
use zhitiku_desktop::template_sanitize::{
    collect_mathtype_object_relationships, remove_ole_content_types, remove_relationships,
};
use zhitiku_desktop::template_styles::{extract_paragraph_style_properties, preserve_floating_object_paragraph};
use zhitiku_desktop::theme::{detect_page_number_fields, parse_font_theme};

const W: &str = "http://schemas.openxmlformats.org/wordprocessingml/2006/main";

#[test]
fn hex_text_round_trips_and_reports_both_errors() {
    let bytes = vec![0x00, 0x0f, 0x10, 0xab, 0xff];
    let encoded = to_lower_hex(&bytes);
    assert_eq!(encoded, "000f10abff");
    assert_eq!(decode_hex_bytes(&encoded).unwrap(), bytes);
    assert_eq!(decode_hex_bytes("ABcd").unwrap(), vec![0xab, 0xcd]);
    assert_eq!(decode_hex_bytes("").unwrap(), Vec::<u8>::new());
    assert_eq!(decode_hex_bytes("abc").unwrap_err(), HexDecodeError::OddLength);
    assert_eq!(decode_hex_bytes("zz").unwrap_err(), HexDecodeError::InvalidData);
    assert_eq!(decode_hex_bytes("é").unwrap_err(), HexDecodeError::InvalidData);
    assert_eq!(HexDecodeError::OddLength.message(), "hex byte string has an odd length");
    assert_eq!(HexDecodeError::InvalidData.message(), "hex byte string contains invalid data");
    assert_eq!(hex_digit_value(b'F'), Some(15));
    assert_eq!(hex_digit_value(b'g'), None);
}

#[test]
fn numbers_parse_as_the_standard_library_does() {
    assert_eq!(parse_u32("16838"), Some(16_838));
    assert_eq!(parse_u32("+7"), Some(7));
    assert_eq!(parse_u32("4294967295"), Some(u32::MAX));
    assert_eq!(parse_u32("4294967296"), None);
    assert_eq!(parse_u32(""), None);
    assert_eq!(parse_u32("-1"), None);
    assert_eq!(parse_u32("1.5"), None);
    assert_eq!(parse_u64("18446744073709551615"), Some(u64::MAX));
    assert_eq!(parse_i64("-907415"), Some(-907_415));
    assert_eq!(parse_i64("-9223372036854775808"), Some(i64::MIN));
    assert_eq!(parse_i64("9223372036854775808"), None);
    assert_eq!(parse_i64("-"), None);
}

#[test]
fn page_setup_defaults_and_section_values() {
    let defaults = TemplatePageSetup::default();
    let xml = format!(r#"<w:document xmlns:w="{W}"><w:body><w:p/><w:sectPr/></w:body></w:document>"#);
    let read = read_page_setup(xml.as_bytes(), &DocxLimits::default()).unwrap();
    assert_eq!(read, defaults);

    let xml = format!(
        r#"<w:document xmlns:w="{W}"><w:body><w:sectPr><w:pgSz w:w="11906" w:h="16838"/><w:pgMar w:top="1440" w:left="1800"/><w:cols w:num="3"/></w:sectPr></w:body></w:document>"#
    );
    let read = read_page_setup(xml.as_bytes(), &DocxLimits::default()).unwrap();
    assert_eq!(read.width_twips, 11_906);
    assert_eq!(read.height_twips, 16_838);
    assert_eq!(read.margin_top_twips, 1_440);
    assert_eq!(read.margin_left_twips, 1_800);
    assert_eq!(read.margin_right_twips, defaults.margin_right_twips);
    assert_eq!(read.column_count, 3);
}

#[test]
fn font_theme_and_page_fields() {
    let theme = r#"<a:theme xmlns:a="http://schemas.openxmlformats.org/drawingml/2006/main"><a:themeElements><a:fontScheme name="x"><a:majorFont><a:latin typeface="Cambria"/></a:majorFont><a:minorFont><a:latin typeface=""/><a:ea typeface="黑体"/></a:minorFont></a:fontScheme></a:themeElements></a:theme>"#;
    let fonts = parse_font_theme(theme.as_bytes(), "word/theme/theme1.xml", &DocxLimits::default()).unwrap();
    assert_eq!(fonts.major_latin.as_deref(), Some("Cambria"));
    assert_eq!(fonts.major_east_asia, None);
    assert_eq!(fonts.minor_latin, None);
    assert_eq!(fonts.minor_east_asia.as_deref(), Some("黑体"));

    let footer = format!(
        r#"<w:ftr xmlns:w="{W}"><w:p><w:r><w:instrText xml:space="preserve"> page </w:instrText></w:r><w:r><w:instrText>\* MERGEFORMAT</w:instrText></w:r></w:p></w:ftr>"#
    );
    let fields = detect_page_number_fields(footer.as_bytes(), "word/footer1.xml", &DocxLimits::default()).unwrap();
    assert_eq!(fields, (true, false));
    let sections = format!(r#"<w:ftr xmlns:w="{W}"><w:p><w:r><w:instrText>SECTIONPAGES</w:instrText></w:r></w:p></w:ftr>"#);
    let fields = detect_page_number_fields(sections.as_bytes(), "word/footer1.xml", &DocxLimits::default()).unwrap();
    assert_eq!(fields, (false, true));
    let simple = format!(
        r#"<w:ftr xmlns:w="{W}"><w:p><w:fldSimple w:instr=" PAGE "><w:r><w:t>1</w:t></w:r></w:fldSimple></w:p></w:ftr>"#
    );
    let fields = detect_page_number_fields(simple.as_bytes(), "word/footer1.xml", &DocxLimits::default()).unwrap();
    assert_eq!(fields, (false, false));
    let plain = format!(r#"<w:ftr xmlns:w="{W}"><w:p><w:r><w:t>PAGE</w:t></w:r></w:p></w:ftr>"#);
    let fields = detect_page_number_fields(plain.as_bytes(), "word/footer1.xml", &DocxLimits::default()).unwrap();
    assert_eq!(fields, (false, false));
}

#[test]
fn page_number_formats() {
    assert_eq!(page_number_format(true, true).as_deref(), Some("第 {pageNo} 页，共 {pageCount} 页"));
    assert_eq!(page_number_format(true, false).as_deref(), Some("第 {pageNo} 页"));
    assert_eq!(page_number_format(false, true).as_deref(), Some("第 {pageNo} 页，共 {pageCount} 页"));
    assert_eq!(page_number_format(false, false), None);
}

#[test]
fn side_seal_paragraphs_need_every_seal_word() {
    assert!(is_side_seal_paragraph("<w:t>班级 姓名 考号 密封线</w:t>".as_bytes()));
    assert!(!is_side_seal_paragraph("<w:t>班级 姓名 考号</w:t>".as_bytes()));
    assert!(!is_side_seal_paragraph(b"<w:t>plain</w:t>"));
}

#[test]
fn markers_and_content_controls_carry_the_anchor_name() {
    let marker = marker_paragraph(W, "ZT_TITLE");
    assert!(marker.contains("{{ZT_TITLE}}"));
    assert!(marker.starts_with("<w:p xmlns:w=\""));
    let control = content_control(W, "ZT_QUESTIONS");
    assert!(control.contains(r#"w:tag w:val="ZT_QUESTIONS""#));
    assert!(control.ends_with("<w:sdtContent><w:p/></w:sdtContent></w:sdt>"));
}

#[test]
fn style_properties_of_a_paragraph() {
    let paragraph = format!(
        r#"<w:p xmlns:w="{W}"><w:pPr><w:jc w:val="center"/></w:pPr><w:r><w:rPr><w:b/></w:rPr><w:t>x</w:t></w:r></w:p>"#
    );
    let (paragraph_properties, run_properties) =
        extract_paragraph_style_properties(paragraph.as_bytes(), &DocxLimits::default()).unwrap();
    assert!(String::from_utf8_lossy(&paragraph_properties).contains(r#"w:jc w:val="center""#));
    assert!(String::from_utf8_lossy(&run_properties).contains("w:b"));
}

#[test]
fn paragraphs_without_floating_objects_are_not_preserved() {
    let paragraph = format!(r#"<w:p xmlns:w="{W}"><w:r><w:t>title</w:t></w:r></w:p>"#);
    let kept = preserve_floating_object_paragraph(paragraph.as_bytes(), W, &DocxLimits::default()).unwrap();
    assert!(kept.is_none());
}

#[test]
fn relationship_filter_removes_only_the_given_ids() {
    let rels = r#"<Relationships xmlns="http://schemas.openxmlformats.org/package/2006/relationships"><Relationship Id="rId1" Target="embeddings/oleObject1.bin"/><Relationship Id="rId2" Target="styles.xml"/></Relationships>"#;
    let kept = remove_relationships(rels.as_bytes(), &["rId1".to_owned()], &DocxLimits::default()).unwrap();
    let kept = String::from_utf8(kept).unwrap();
    assert!(!kept.contains("rId1"));
    assert!(kept.contains(r#"Id="rId2""#));
    let ids = ["rId9".to_owned(), "rId1".to_owned(), "rId8".to_owned(), "rId9".to_owned()];
    let error = remove_relationships(rels.as_bytes(), &ids, &DocxLimits::default()).unwrap_err();
    let DocxError::Rejected { diagnostics } = error else {
        panic!("missing relationships must be rejected");
    };
    assert_eq!(diagnostics.len(), 1);
    assert_eq!(diagnostics[0].code, "TEMPLATE_MATHTYPE_RELATIONSHIP_MISSING");
    assert_eq!(diagnostics[0].message, "无法找到需要清理的公式关系：rId8, rId9");
}

#[test]
fn content_type_filter_drops_ole_entries() {
    let types = r#"<Types xmlns="http://schemas.openxmlformats.org/package/2006/content-types"><Default Extension="bin" ContentType="application/vnd.openxmlformats-officedocument.oleObject"/><Default Extension="xml" ContentType="application/xml"/><Override PartName="/word/embeddings/x.wmf" ContentType="image/x-wmf"/><Override PartName="/word/document.xml" ContentType="application/vnd.openxmlformats-officedocument.wordprocessingml.document.main+xml"/></Types>"#;
    let kept = String::from_utf8(remove_ole_content_types(types.as_bytes(), &DocxLimits::default()).unwrap()).unwrap();
    assert!(!kept.contains("oleObject"));
    assert!(!kept.contains("embeddings"));
    assert!(kept.contains(r#"Extension="xml""#));
}

#[test]
fn mathtype_objects_name_their_relationships() {
    let document = format!(
        r#"<w:document xmlns:w="{W}" xmlns:o="urn:schemas-microsoft-com:office:office" xmlns:v="urn:schemas-microsoft-com:vml" xmlns:r="http://schemas.openxmlformats.org/officeDocument/2006/relationships"><w:body><w:p><w:r><w:object><v:shape><v:imagedata r:id="rId7"/></v:shape><o:OLEObject ProgID="Equation.DSMT4" r:id="rId8"/></w:object></w:r></w:p><w:p><w:r><w:object><v:imagedata r:id="rId9"/></w:object></w:r></w:p></w:body></w:document>"#
    );
    let found = collect_mathtype_object_relationships(document.as_bytes(), &DocxLimits::default()).unwrap();
    assert_eq!(found.ole_ids, vec!["rId8".to_owned()]);
    assert!(found.resource_ids.contains(&"rId7".to_owned()));
    assert!(found.resource_ids.contains(&"rId8".to_owned()));
    assert!(!found.resource_ids.contains(&"rId9".to_owned()));
}

fn edit(start: usize, end: usize, bytes: &[u8], label: &'static str) -> XmlEdit {
    XmlEdit { span: ByteSpan { start, end }, bytes: bytes.to_vec(), label }
}

fn codes(error: DocxError) -> Vec<&'static str> {
    match error {
        DocxError::Rejected { diagnostics } => diagnostics.iter().map(|d| d.code).collect(),
        other => panic!("expected a rejection, got {other:?}"),
    }
}

#[test]
fn edits_are_sorted_checked_and_applied() {
    let mut edits = vec![edit(6, 9, b"X", "questions"), edit(0, 3, b"Y", "title")];
    validate_edits(&mut edits, 12).unwrap();
    assert_eq!(edits[0].label, "title");
    assert_eq!(edits[1].label, "questions");
    assert_eq!(apply_edits(b"abcdefghijkl", &edits), b"YdefXjkl".to_vec());

    let mut overlapping = vec![edit(0, 5, b"", "title"), edit(3, 8, b"", "questions")];
    let error = validate_edits(&mut overlapping, 12).unwrap_err();
    assert_eq!(codes(error), vec!["TEMPLATE_CONFIGURATION_REGIONS_OVERLAP"]);

    let mut same_point = vec![edit(4, 4, b"A", "title"), edit(4, 4, b"B", "questions")];
    let error = validate_edits(&mut same_point, 12).unwrap_err();
    assert_eq!(codes(error), vec!["TEMPLATE_CONFIGURATION_REGIONS_OVERLAP"]);

    let mut outside = vec![edit(10, 20, b"", "questions")];
    let error = validate_edits(&mut outside, 12).unwrap_err();
    assert_eq!(codes(error), vec!["TEMPLATE_CONFIGURATION_SPAN_INVALID"]);
}

#[test]
fn member_lengths_must_match_the_central_directory() {
    assert!(member_length_check(12, 12).is_ok());
    assert!(matches!(member_length_check(11, 12), Err(DocxError::Zip(_))));
}

#[test]
fn formulas_follow_their_fragments() {
    assert!(formulas_from_fragments(&Vec::new()).unwrap().is_empty());
    let xml = r#"<m:oMath xmlns:m="http://schemas.openxmlformats.org/officeDocument/2006/math"><m:r><m:t>x</m:t></m:r></m:oMath>"#;
    let fragment = MathFragment {
        kind: MathKind::Inline,
        source_span: ByteSpan { start: 0, end: xml.len() },
        raw_xml: xml.as_bytes().to_vec(),
        paragraph_index: Some(2),
        text_char_offset: Some(5),
    };
    let formulas = formulas_from_fragments(&vec![fragment]).unwrap();
    assert_eq!(formulas.len(), 1);
    assert_eq!(formulas[0].paragraph_index, 2);
    assert_eq!(formulas[0].text_char_offset, 5);
    assert_eq!(formulas[0].latex, "x");
    assert_eq!(formulas[0].source_kind, "word_omml");
    let outside = MathFragment {
        kind: MathKind::Inline,
        source_span: ByteSpan { start: 0, end: xml.len() },
        raw_xml: xml.as_bytes().to_vec(),
        paragraph_index: None,
        text_char_offset: Some(5),
    };
    assert!(matches!(formulas_from_fragments(&vec![outside]), Err(DocxError::Xml { .. })));
}
