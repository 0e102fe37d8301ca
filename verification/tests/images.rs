use std::io::{Cursor, Write};

use zhitiku_desktop::archive::inspect_docx;
use zhitiku_desktop::error::DocxError;
use zhitiku_desktop::images::{MAX_IMAGE_BYTES, read_images_from_docx};
use zhitiku_desktop::limits::DocxLimits;
use zhitiku_desktop::package::PackageKind;
use zip::{ZipWriter, write::SimpleFileOptions};

const CONTENT_TYPES: &str = r#"<?xml version="1.0" encoding="UTF-8"?>
<Types xmlns="http://schemas.openxmlformats.org/package/2006/content-types">
  <Default Extension="rels" ContentType="application/vnd.openxmlformats-package.relationships+xml"/>
  <Default Extension="xml" ContentType="application/xml"/>
  <Override PartName="/word/document.xml" ContentType="application/vnd.openxmlformats-officedocument.wordprocessingml.document.main+xml"/>
</Types>"#;

const ROOT_RELS: &str = r#"<?xml version="1.0" encoding="UTF-8"?>
<Relationships xmlns="http://schemas.openxmlformats.org/package/2006/relationships">
  <Relationship Id="rId1" Type="http://schemas.openxmlformats.org/officeDocument/2006/relationships/officeDocument" Target="word/document.xml"/>
</Relationships>"#;

const DOCUMENT: &str = r#"<?xml version="1.0" encoding="UTF-8"?>
<w:document xmlns:w="http://schemas.openxmlformats.org/wordprocessingml/2006/main">
  <w:body><w:p><w:r><w:t>Hello</w:t></w:r></w:p></w:body>
</w:document>"#;

const RELS: &str = r#"<?xml version="1.0" encoding="UTF-8"?>
<Relationships xmlns="http://schemas.openxmlformats.org/package/2006/relationships">
  <Relationship Id="rImg" Type="http://schemas.openxmlformats.org/officeDocument/2006/relationships/image" Target="media/image1.png"/>
</Relationships>"#;

fn package_with_entries(entries: &[(&str, &[u8])]) -> Vec<u8> {
    let cursor = Cursor::new(Vec::new());
    let mut writer = ZipWriter::new(cursor);
    let options = SimpleFileOptions::default().compression_method(zip::CompressionMethod::Deflated);
    for (name, bytes) in entries {
        writer.start_file(*name, options).unwrap();
        writer.write_all(bytes).unwrap();
    }
    writer.finish().unwrap().into_inner()
}

fn minimal_docx(document_xml: &str) -> Vec<u8> {
    package_with_entries(&[
        ("[Content_Types].xml", CONTENT_TYPES.as_bytes()),
        ("_rels/.rels", ROOT_RELS.as_bytes()),
        ("word/document.xml", document_xml.as_bytes()),
        ("word/styles.xml", b"<w:styles xmlns:w=\"http://schemas.openxmlformats.org/wordprocessingml/2006/main\"/>"),
    ])
}

fn rename_zip_entry(bytes: &mut [u8], from: &str, to: &str) {
    assert_eq!(from.len(), to.len());
    let offsets = bytes
        .windows(from.len())
        .enumerate()
        .filter_map(|(offset, window)| (window == from.as_bytes()).then_some(offset))
        .collect::<Vec<_>>();
    assert_eq!(offsets.len(), 2);
    for offset in offsets {
        bytes[offset..offset + to.len()].copy_from_slice(to.as_bytes());
    }
}

#[test]
fn accepts_a_minimal_bounded_docx() {
    let bytes = minimal_docx(DOCUMENT);
    let result = inspect_docx(&bytes, &DocxLimits::default()).unwrap();
    assert!(result.is_acceptable(), "{:?}", result.diagnostics);
    assert_eq!(result.package_kind, PackageKind::Document);
    assert_eq!(result.parts.len(), 4);
}

#[test]
fn rejects_traversal_names_before_decompression() {
    let bytes = package_with_entries(&[
        ("[Content_Types].xml", CONTENT_TYPES.as_bytes()),
        ("_rels/.rels", ROOT_RELS.as_bytes()),
        ("word/document.xml", DOCUMENT.as_bytes()),
        ("../../outside.bin", b"bad"),
    ]);
    let result = inspect_docx(&bytes, &DocxLimits::default()).unwrap();
    assert!(!result.is_acceptable());
    assert!(result.diagnostics.iter().any(|item| item.code == "DOCX_UNSAFE_PART_NAME"));
}

#[test]
fn reports_declared_size_limits() {
    let bytes = minimal_docx(DOCUMENT);
    let limits = DocxLimits { max_xml_part_bytes: 8, ..DocxLimits::default() };
    let result = inspect_docx(&bytes, &limits).unwrap();
    assert!(result.diagnostics.iter().any(|item| item.code == "DOCX_PART_TOO_LARGE"));
}

#[test]
fn rejects_duplicate_and_active_content_parts() {
    let mut bytes = package_with_entries(&[
        ("[Content_Types].xml", CONTENT_TYPES.as_bytes()),
        ("_rels/.rels", ROOT_RELS.as_bytes()),
        ("word/document.xml", DOCUMENT.as_bytes()),
        ("word/styles-1.xml", b"<styles/>"),
        ("word/styles-2.xml", b"<duplicate/>"),
        ("word/vbaProject.bin", b"macro"),
    ]);
    rename_zip_entry(&mut bytes, "word/styles-2.xml", "word/styles-1.xml");
    let result = inspect_docx(&bytes, &DocxLimits::default()).unwrap();
    assert!(result.diagnostics.iter().any(|item| item.code == "DOCX_DUPLICATE_PART"));
    assert!(result.diagnostics.iter().any(|item| item.code == "DOCX_ACTIVE_CONTENT_PART"));
}

#[test]
fn external_relationships_and_alt_chunks_are_reported() {
    let rels = r#"<Relationships xmlns="http://schemas.openxmlformats.org/package/2006/relationships">
  <Relationship Id="rId1" Type="http://schemas.openxmlformats.org/officeDocument/2006/relationships/officeDocument" Target="/word/document.xml"/>
  <Relationship Id="rId2" Type="http://schemas.openxmlformats.org/officeDocument/2006/relationships/hyperlink" Target="https://example.test/" TargetMode="External"/>
</Relationships>"#;
    let document = r#"<w:document xmlns:w="http://schemas.openxmlformats.org/wordprocessingml/2006/main"><w:body><w:altChunk/></w:body></w:document>"#;
    let bytes = package_with_entries(&[
        ("[Content_Types].xml", CONTENT_TYPES.as_bytes()),
        ("_rels/.rels", rels.as_bytes()),
        ("word/document.xml", document.as_bytes()),
    ]);
    let result = inspect_docx(&bytes, &DocxLimits::default()).unwrap();
    let codes: Vec<&str> = result.diagnostics.iter().map(|d| d.code).collect();
    assert_eq!(codes, vec!["DOCX_EXTERNAL_RELATIONSHIP", "DOCX_ALT_CHUNK"]);
    assert_eq!(result.diagnostics[0].message, "external target is not allowed: https://example.test/");
}

#[test]
fn oversized_archives_get_a_single_finding() {
    let bytes = minimal_docx(DOCUMENT);
    let limits = DocxLimits { max_archive_bytes: 16, ..DocxLimits::default() };
    let result = inspect_docx(&bytes, &limits).unwrap();
    assert_eq!(result.diagnostics.len(), 1);
    assert_eq!(result.diagnostics[0].code, "DOCX_ARCHIVE_TOO_LARGE");
    assert!(result.parts.is_empty());
}

fn document(blips: &str) -> String {
    format!(
        r#"<?xml version="1.0" encoding="UTF-8"?>
<w:document xmlns:w="http://schemas.openxmlformats.org/wordprocessingml/2006/main"
 xmlns:a="http://schemas.openxmlformats.org/drawingml/2006/main"
 xmlns:r="http://schemas.openxmlformats.org/officeDocument/2006/relationships">
 <w:body><w:p><w:r><w:t>Hello</w:t></w:r>{blips}<w:r><w:t>world</w:t></w:r></w:p></w:body>
</w:document>"#
    )
}

fn blip(id: &str) -> String {
    format!(r#"<w:r><w:drawing><a:blip r:embed="{id}"/></w:drawing></w:r>"#)
}

fn png(width: u32, height: u32, padding: usize) -> Vec<u8> {
    let mut bytes = b"\x89PNG\r\n\x1a\n".to_vec();
    push_png_chunk(
        &mut bytes,
        b"IHDR",
        &[width.to_be_bytes().as_slice(), height.to_be_bytes().as_slice(), &[8, 2, 0, 0, 0]].concat(),
    );
    push_png_chunk(&mut bytes, b"IDAT", &vec![0; padding.max(1)]);
    push_png_chunk(&mut bytes, b"IEND", &[]);
    bytes
}

fn push_png_chunk(output: &mut Vec<u8>, kind: &[u8; 4], payload: &[u8]) {
    output.extend_from_slice(&(payload.len() as u32).to_be_bytes());
    output.extend_from_slice(kind);
    output.extend_from_slice(payload);
    output.extend_from_slice(&[0; 4]);
}

fn jpeg(width: u16, height: u16) -> Vec<u8> {
    vec![
        0xff, 0xd8, 0xff, 0xc0, 0x00, 0x0b, 0x08, (height >> 8) as u8, height as u8,
        (width >> 8) as u8, width as u8, 0x01, 0x01, 0x11, 0x00, 0xff, 0xd9,
    ]
}

fn package(document: &str, rels: &str, image_name: &str, image: &[u8]) -> Vec<u8> {
    package_with_entries(&[
        ("[Content_Types].xml", CONTENT_TYPES.as_bytes()),
        ("_rels/.rels", ROOT_RELS.as_bytes()),
        ("word/document.xml", document.as_bytes()),
        ("word/_rels/document.xml.rels", rels.as_bytes()),
        (image_name, image),
    ])
}

#[test]
fn extracts_repeated_png_occurrences_with_text_offsets() {
    let xml = document(&format!("{}{}", blip("rImg"), blip("rImg")));
    let image = png(3, 2, 1);
    let bytes = package(&xml, RELS, "word/media/image1.png", &image);
    let extracted = read_images_from_docx(&bytes, &DocxLimits::default()).unwrap();
    assert_eq!(extracted.len(), 2);
    assert_eq!(extracted[0].paragraph_index, 0);
    assert_eq!(extracted[0].text_char_offset, 5);
    assert_eq!(extracted[1].text_char_offset, 5);
    assert_eq!(extracted[0].relationship_id, "rImg");
    assert_eq!(extracted[0].original_filename.as_deref(), Some("image1.png"));
    assert_eq!(extracted[0].mime_type, "image/png");
    assert_eq!((extracted[0].width_px, extracted[0].height_px), (3, 2));
    assert_eq!(extracted[0].bytes, image);
    assert_eq!(extracted[0].bytes, extracted[1].bytes);
}

#[test]
fn reports_the_second_paragraph_index() {
    let xml = format!(
        r#"<?xml version="1.0" encoding="UTF-8"?>
<w:document xmlns:w="http://schemas.openxmlformats.org/wordprocessingml/2006/main"
 xmlns:a="http://schemas.openxmlformats.org/drawingml/2006/main"
 xmlns:r="http://schemas.openxmlformats.org/officeDocument/2006/relationships">
 <w:body><w:p><w:r><w:t>first</w:t></w:r></w:p><w:p><w:r><w:t>x</w:t></w:r>{}</w:p></w:body>
</w:document>"#,
        blip("rImg")
    );
    let bytes = package(&xml, RELS, "word/media/image1.png", &png(1, 1, 1));
    let extracted = read_images_from_docx(&bytes, &DocxLimits::default()).unwrap();
    assert_eq!(extracted[0].paragraph_index, 1);
    assert_eq!(extracted[0].text_char_offset, 1);
}

#[test]
fn skips_nested_text_box_images_and_keeps_following_indices_aligned() {
    let xml = format!(
        r#"<?xml version="1.0" encoding="UTF-8"?>
<w:document xmlns:w="http://schemas.openxmlformats.org/wordprocessingml/2006/main"
 xmlns:a="http://schemas.openxmlformats.org/drawingml/2006/main"
 xmlns:r="http://schemas.openxmlformats.org/officeDocument/2006/relationships">
 <w:body>
  <w:p><w:r><w:t>a</w:t></w:r><w:txbxContent><w:p><w:r><w:t>inside</w:t></w:r>{}</w:p></w:txbxContent></w:p>
  <w:p><w:r><w:t>x</w:t></w:r>{}</w:p>
 </w:body>
</w:document>"#,
        blip("rImg"),
        blip("rImg")
    );
    let bytes = package(&xml, RELS, "word/media/image1.png", &png(1, 1, 1));
    let extracted = read_images_from_docx(&bytes, &DocxLimits::default()).unwrap();
    assert_eq!(extracted.len(), 1);
    assert_eq!(extracted[0].paragraph_index, 1);
    assert_eq!(extracted[0].text_char_offset, 1);
}

#[test]
fn extracts_jpeg_dimensions() {
    let xml = document(&blip("rJpeg"));
    let rels = RELS.replace("rImg", "rJpeg").replace("image1.png", "photo.jpeg");
    let image = jpeg(640, 480);
    let bytes = package(&xml, &rels, "word/media/photo.jpeg", &image);
    let extracted = read_images_from_docx(&bytes, &DocxLimits::default()).unwrap();
    assert_eq!(extracted[0].mime_type, "image/jpeg");
    assert_eq!((extracted[0].width_px, extracted[0].height_px), (640, 480));
}

#[test]
fn rejects_missing_and_duplicate_relationships() {
    let xml = document(&blip("missing"));
    let bytes = package(&xml, RELS, "word/media/image1.png", &png(1, 1, 1));
    assert!(read_images_from_docx(&bytes, &DocxLimits::default()).is_err());

    let duplicate = RELS.replace(
        "</Relationships>",
        "<Relationship Id=\"rImg\" Type=\"http://schemas.openxmlformats.org/officeDocument/2006/relationships/image\" Target=\"media/image1.png\"/></Relationships>",
    );
    let xml = document(&blip("rImg"));
    let bytes = package(&xml, &duplicate, "word/media/image1.png", &png(1, 1, 1));
    assert!(read_images_from_docx(&bytes, &DocxLimits::default()).is_err());
}

#[test]
fn rejects_external_and_escaping_relationships() {
    let xml = document(&blip("rImg"));
    let external = RELS
        .replace("media/image1.png", "https://example.test/image.png")
        .replace("Target=", "TargetMode=\"External\" Target=");
    let bytes = package(&xml, &external, "word/media/image1.png", &png(1, 1, 1));
    assert!(read_images_from_docx(&bytes, &DocxLimits::default()).is_err());

    let escaping = RELS.replace("media/image1.png", "../image1.png");
    let bytes = package(&xml, &escaping, "word/media/image1.png", &png(1, 1, 1));
    assert!(read_images_from_docx(&bytes, &DocxLimits::default()).is_err());
}

#[test]
fn rejects_non_raster_and_invalid_dimensions() {
    let xml = document(&blip("rImg"));
    let bytes = package(&xml, RELS, "word/media/image1.png", b"not an image");
    assert!(read_images_from_docx(&bytes, &DocxLimits::default()).is_err());

    let bytes = package(&xml, RELS, "word/media/image1.png", &png(0, 1, 1));
    assert!(matches!(
        read_images_from_docx(&bytes, &DocxLimits::default()),
        Err(DocxError::LimitExceeded { .. })
    ));

    let bytes = package(&xml, RELS, "word/media/image1.png", &png(20_001, 1, 1));
    assert!(matches!(
        read_images_from_docx(&bytes, &DocxLimits::default()),
        Err(DocxError::LimitExceeded { .. })
    ));

    let bytes = package(&xml, RELS, "word/media/image1.png", &png(10_000, 5_000, 1));
    assert!(matches!(
        read_images_from_docx(&bytes, &DocxLimits::default()),
        Err(DocxError::LimitExceeded { .. })
    ));
}

#[test]
fn rejects_more_than_128_occurrences() {
    let blips = (0..129).map(|_| blip("rImg")).collect::<String>();
    let xml = document(&blips);
    let bytes = package(&xml, RELS, "word/media/image1.png", &png(1, 1, 1));
    assert!(matches!(
        read_images_from_docx(&bytes, &DocxLimits::default()),
        Err(DocxError::LimitExceeded { .. })
    ));
}

#[test]
fn enforces_per_image_and_total_occurrence_byte_limits() {
    let oversized = png(1, 1, MAX_IMAGE_BYTES as usize);
    let xml = document(&blip("rImg"));
    let bytes = package(&xml, RELS, "word/media/image1.png", &oversized);
    assert!(matches!(
        read_images_from_docx(&bytes, &DocxLimits::default()),
        Err(DocxError::LimitExceeded { .. })
    ));

    let image = png(1, 1, 4 * 1024 * 1024);
    let blips = (0..9).map(|_| blip("rImg")).collect::<String>();
    let bytes = package(&document(&blips), RELS, "word/media/image1.png", &image);
    assert!(matches!(
        read_images_from_docx(&bytes, &DocxLimits::default()),
        Err(DocxError::LimitExceeded { .. })
    ));
}
