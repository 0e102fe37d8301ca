use zhitiku_desktop::limits::DocxLimits;
use zhitiku_desktop::markers::{parse_image_markers, parse_mathtype_markers};
use zhitiku_desktop::relationships::{
    parse_image_relationships, parse_mathtype_relationships, part_file_name, resolve_image_target,
};

fn document(body: &str) -> String {
    format!(
        r#"<?xml version="1.0" encoding="UTF-8"?>
<w:document xmlns:w="http://schemas.openxmlformats.org/wordprocessingml/2006/main"
 xmlns:a="http://schemas.openxmlformats.org/drawingml/2006/main"
 xmlns:m="http://schemas.openxmlformats.org/officeDocument/2006/math"
 xmlns:o="urn:schemas-microsoft-com:office:office"
 xmlns:r="http://schemas.openxmlformats.org/officeDocument/2006/relationships">
 <w:body>{body}</w:body>
</w:document>"#
    )
}

fn ole(id: &str) -> String {
    format!(r#"<w:r><w:object><o:OLEObject Type="Embed" ProgID="Equation.DSMT4" r:id="{id}"/></w:object></w:r>"#)
}

fn blip(id: &str) -> String {
    format!(r#"<w:r><w:drawing><a:blip r:embed="{id}"/></w:drawing></w:r>"#)
}

#[test]
fn mathtype_objects_take_one_character_each() {
    let xml = document(&format!(
        "<w:p><w:r><w:t>ab</w:t></w:r>{}<w:r><w:t>c</w:t></w:r>{}</w:p><w:p>{}</w:p>",
        ole("rId1"),
        ole("rId1"),
        ole("rId2")
    ));
    let markers = parse_mathtype_markers(xml.as_bytes(), &DocxLimits::default()).unwrap();
    let found: Vec<(usize, usize, &str)> = markers
        .iter()
        .map(|m| (m.paragraph_index, m.text_char_offset, m.relationship_id.as_str()))
        .collect();
    assert_eq!(found, vec![(0, 2, "rId1"), (0, 4, "rId1"), (1, 0, "rId2")]);
}

#[test]
fn images_take_no_character_and_omml_takes_one() {
    let xml = document(&format!(
        "<w:p><w:r><w:t>Hello</w:t></w:r>{}<m:oMath><m:r><m:t>x</m:t></m:r></m:oMath>{}<w:r><w:t>world</w:t></w:r>{}</w:p>",
        blip("rImg"),
        blip("rImg"),
        blip("rImg")
    ));
    let markers = parse_image_markers(xml.as_bytes(), &DocxLimits::default()).unwrap();
    let offsets: Vec<usize> = markers.iter().map(|m| m.text_char_offset).collect();
    assert_eq!(offsets, vec![5, 6, 11]);
}

#[test]
fn deleted_objects_and_text_box_paragraphs_are_skipped() {
    let xml = document(&format!(
        "<w:p><w:del>{}</w:del><w:r><w:drawing><w:txbxContent><w:p><w:r><w:t>in box</w:t></w:r></w:p></w:txbxContent></w:drawing></w:r></w:p><w:p>{}</w:p>",
        ole("rId1"),
        ole("rId2")
    ));
    let markers = parse_mathtype_markers(xml.as_bytes(), &DocxLimits::default()).unwrap();
    assert_eq!(markers.len(), 1);
    assert_eq!(markers[0].paragraph_index, 1);
    assert_eq!(markers[0].relationship_id, "rId2");
}

#[test]
fn objects_must_be_embedded_mathtype_inside_paragraphs() {
    let linked = document(
        r#"<w:p><w:r><o:OLEObject Type="Link" ProgID="Equation.DSMT4" r:id="rId1"/></w:r></w:p>"#,
    );
    let error = parse_mathtype_markers(linked.as_bytes(), &DocxLimits::default()).unwrap_err();
    assert!(error.message().ends_with("linked or non-embedded OLE objects are not allowed"));

    let other = document(
        r#"<w:p><w:r><o:OLEObject Type="embed" ProgID="Excel.Sheet" r:id="rId1"/></w:r></w:p>"#,
    );
    let error = parse_mathtype_markers(other.as_bytes(), &DocxLimits::default()).unwrap_err();
    assert!(error.message().ends_with("embedded OLE object \"Excel.Sheet\" is not a MathType equation"));

    let outside = document(&ole("rId1"));
    let error = parse_mathtype_markers(outside.as_bytes(), &DocxLimits::default()).unwrap_err();
    assert!(error.message().ends_with("MathType OLEObject occurs outside a Word paragraph"));

    let missing = document(r#"<w:p><o:OLEObject Type="Embed" ProgID="Equation.3"/></w:p>"#);
    let error = parse_mathtype_markers(missing.as_bytes(), &DocxLimits::default()).unwrap_err();
    assert!(error.message().ends_with("MathType OLEObject is missing r:id"));
}

#[test]
fn linked_images_and_unterminated_paragraphs_are_refused() {
    let linked = document(r#"<w:p><a:blip r:link="rImg"/></w:p>"#);
    let error = parse_image_markers(linked.as_bytes(), &DocxLimits::default()).unwrap_err();
    assert_eq!(
        error.message(),
        "invalid XML in word/_rels/document.xml.rels at byte 0: linked/external DrawingML images are not allowed"
    );
    let open = r#"<w:document xmlns:w="http://schemas.openxmlformats.org/wordprocessingml/2006/main"><w:p>"#;
    let error = parse_image_markers(open.as_bytes(), &DocxLimits::default()).unwrap_err();
    assert!(error.message().contains("unterminated w:p element") || error.message().contains("invalid XML"));
}

#[test]
fn image_occurrences_are_capped() {
    let blips: String = (0..129).map(|_| blip("rImg")).collect();
    let xml = document(&format!("<w:p>{blips}</w:p>"));
    let error = parse_image_markers(xml.as_bytes(), &DocxLimits::default()).unwrap_err();
    assert_eq!(
        error.message(),
        "DOCX resource limit exceeded for DOCX image occurrences: limit 128, actual 129"
    );
}

const RELS: &str = r#"<?xml version="1.0" encoding="UTF-8"?>
<Relationships xmlns="http://schemas.openxmlformats.org/package/2006/relationships">
  <Relationship Id="rImg" Type="http://schemas.openxmlformats.org/officeDocument/2006/relationships/image" Target="media/image1.png"/>
  <Relationship Id="rOle" Type="http://schemas.openxmlformats.org/officeDocument/2006/relationships/oleObject" Target="embeddings/oleObject1.bin"/>
  <Relationship Id="rStyles" Type="http://schemas.openxmlformats.org/officeDocument/2006/relationships/styles" Target="styles.xml"/>
</Relationships>"#;

#[test]
fn relationships_are_kept_by_type() {
    let images = parse_image_relationships(RELS.as_bytes(), &DocxLimits::default()).unwrap();
    assert_eq!(images.len(), 1);
    assert_eq!(images[0].id, "rImg");
    assert_eq!(images[0].target_part, "word/media/image1.png");
    assert_eq!(images[0].original_filename.as_deref(), Some("image1.png"));
    let equations = parse_mathtype_relationships(RELS.as_bytes(), &DocxLimits::default()).unwrap();
    assert_eq!(equations.len(), 1);
    assert_eq!(equations[0].id, "rOle");
    assert_eq!(equations[0].target_part, "word/embeddings/oleObject1.bin");
    assert_eq!(equations[0].original_filename, None);
}

#[test]
fn duplicate_ids_and_external_targets_are_refused() {
    let duplicate = r#"<Relationships xmlns="http://schemas.openxmlformats.org/package/2006/relationships">
  <Relationship Id="r1" Type="x/styles" Target="styles.xml"/>
  <Relationship Id="r1" Type="x/image" Target="media/a.png"/>
</Relationships>"#;
    let error = parse_image_relationships(duplicate.as_bytes(), &DocxLimits::default()).unwrap_err();
    assert!(error.message().ends_with("duplicate relationship Id r1"));
    let external = r#"<Relationships xmlns="http://schemas.openxmlformats.org/package/2006/relationships">
  <Relationship Id="r1" Type="x/image" Target="http://example.com/a.png" TargetMode="External"/>
</Relationships>"#;
    let error = parse_image_relationships(external.as_bytes(), &DocxLimits::default()).unwrap_err();
    assert!(error.message().ends_with("relationship r1 uses a non-internal target mode"));
    let error = parse_mathtype_relationships(
        r#"<Relationships xmlns="http://schemas.openxmlformats.org/package/2006/relationships">
  <Relationship Id="r1" Type="x/oleObject" Target="../evil.bin"/>
</Relationships>"#
            .as_bytes(),
        &DocxLimits::default(),
    )
    .unwrap_err();
    assert!(error.message().ends_with("MathType relationship must stay under word/embeddings"));
}

#[test]
fn image_targets_stay_under_media() {
    assert_eq!(resolve_image_target("media/a/b.png").unwrap(), "word/media/a/b.png");
    assert!(resolve_image_target("media/../x.png").is_err());
    assert!(resolve_image_target("/media/x.png").is_err());
    assert!(resolve_image_target("media/x%20.png").is_err());
    assert!(resolve_image_target("embeddings/x.png").is_err());
    assert_eq!(part_file_name("word/media/pic.jpeg").as_deref(), Some("pic.jpeg"));
    assert_eq!(part_file_name("word/media/").as_deref(), None);
    assert_eq!(part_file_name("plain").as_deref(), Some("plain"));
}
